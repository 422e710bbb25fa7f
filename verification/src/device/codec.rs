//! Encoding and decoding the response records on the XML wire shape:
//! exact, symmetric, and — for the status record — proven to round-trip.
//!
//! Fields stand in a fixed order on the wire, one leaf element each, an
//! absent optional field simply missing. The two fields that do not fit
//! the flat shape, the action list and the notification URL, are not
//! carried: decoding leaves them absent.

use vstd::prelude::*;
use vstd::string::StringExecFns;
use crate::device::responses::{
    Quality, Status, StatusView, lemma_quality_round_trip, opt_chars, quality_chars,
    quality_of_chars, str_is,
};
use crate::device::xml::{
    DocBodyView, ItemBodyView, XmlDoc, XmlDocBody, XmlDocView, XmlItem, XmlItemBody, XmlItemView,
    items_vec_view, lemma_parse_print_doc, parse_doc, print_doc, read_doc, text_char, wf_doc,
    wf_item, wf_name, wf_text, write_doc,
};
use crate::error::Error;
use crate::numerals::{
    dec_of_int, parse_i64_spec, parse_i64, i64_to_string, lemma_parse_dec_of_int,
    lemma_dec_of_int_chars, is_dec_digit,
};

verus! {

/// A leaf element: a name holding text.
pub open spec fn text_item(key: Seq<char>, value: Seq<char>) -> XmlItemView {
    XmlItemView { name: key, body: ItemBodyView::Text(value) }
}

/// Consumes the head element where it is the leaf named `key`.
pub open spec fn take_text(items: Seq<XmlItemView>, key: Seq<char>) -> Option<
    (Seq<char>, Seq<XmlItemView>),
> {
    if items.len() > 0 && items[0].name == key && items[0].body is Text {
        Some((items[0].body->Text_0, items.drop_first()))
    } else {
        None
    }
}

/// Consumes the head element where it is the leaf named `key`, and leaves
/// everything unread otherwise.
pub open spec fn take_opt_text(items: Seq<XmlItemView>, key: Seq<char>) -> (
    Option<Seq<char>>,
    Seq<XmlItemView>,
) {
    if items.len() > 0 && items[0].name == key && items[0].body is Text {
        (Some(items[0].body->Text_0), items.drop_first())
    } else {
        (None, items)
    }
}

/// No element of `items` carries the name `key`.
pub open spec fn items_no_key(items: Seq<XmlItemView>, key: Seq<char>) -> bool {
    forall|x: int| 0 <= x < items.len() ==> (#[trigger] items[x]).name != key
}

/// What a numeral in the range of `u8` decodes to.
pub open spec fn parse_u8_spec(t: Seq<char>) -> Option<u8> {
    match parse_i64_spec(t) {
        Some(v) => if 0 <= v <= 255 {
            Some(v as u8)
        } else {
            None
        },
        None => None,
    }
}

/// The wire words of a truth value.
pub open spec fn bool_chars(b: bool) -> Seq<char> {
    if b {
        "true"@
    } else {
        "false"@
    }
}

/// What a truth-value word decodes to.
pub open spec fn parse_bool_spec(t: Seq<char>) -> Option<bool> {
    if t == "true"@ {
        Some(true)
    } else if t == "false"@ {
        Some(false)
    } else {
        None
    }
}

/// An absent numeral stays absent; a present one must parse.
pub open spec fn opt_i64_of(o: Option<Seq<char>>) -> Option<Option<i64>> {
    match o {
        Some(t) => match parse_i64_spec(t) {
            Some(v) => Some(Some(v)),
            None => None,
        },
        None => Some(None),
    }
}

/// As [`opt_i64_of`], within the range of `u8`.
pub open spec fn opt_u8_of(o: Option<Seq<char>>) -> Option<Option<u8>> {
    match o {
        Some(t) => match parse_u8_spec(t) {
            Some(v) => Some(Some(v)),
            None => None,
        },
        None => Some(None),
    }
}

/// As [`opt_i64_of`], for a truth value.
pub open spec fn opt_bool_of(o: Option<Seq<char>>) -> Option<Option<bool>> {
    match o {
        Some(t) => match parse_bool_spec(t) {
            Some(v) => Some(Some(v)),
            None => None,
        },
        None => Some(None),
    }
}

/// An absent quality stays absent; every word decodes to one.
pub open spec fn opt_quality_of(o: Option<Seq<char>>) -> Option<Quality> {
    match o {
        Some(t) => Some(quality_of_chars(t)),
        None => None,
    }
}

/// The wire name of the status field at `idx`, in wire order.
pub open spec fn status_field_key(idx: int) -> Seq<char> {
    if idx == 0 {
        "etag"@
    } else if idx == 1 {
        "volume"@
    } else if idx == 2 {
        "db"@
    } else if idx == 3 {
        "mute"@
    } else if idx == 4 {
        "muteVolume"@
    } else if idx == 5 {
        "muteDb"@
    } else if idx == 6 {
        "name"@
    } else if idx == 7 {
        "album"@
    } else if idx == 8 {
        "artist"@
    } else if idx == 9 {
        "totlen"@
    } else if idx == 10 {
        "secs"@
    } else if idx == 11 {
        "repeat"@
    } else if idx == 12 {
        "shuffle"@
    } else if idx == 13 {
        "song"@
    } else if idx == 14 {
        "quality"@
    } else if idx == 15 {
        "fn"@
    } else if idx == 16 {
        "image"@
    } else if idx == 17 {
        "title1"@
    } else if idx == 18 {
        "title2"@
    } else if idx == 19 {
        "title3"@
    } else if idx == 20 {
        "twolineTitle1"@
    } else if idx == 21 {
        "twolineTitle2"@
    } else if idx == 22 {
        "currentImage"@
    } else if idx == 23 {
        "groupName"@
    } else if idx == 24 {
        "groupVolume"@
    } else if idx == 25 {
        "canSeek"@
    } else if idx == 26 {
        "canMovePlayback"@
    } else if idx == 27 {
        "mode"@
    } else if idx == 28 {
        "pid"@
    } else if idx == 29 {
        "prid"@
    } else if idx == 30 {
        "sid"@
    } else if idx == 31 {
        "state"@
    } else if idx == 32 {
        "streamUrl"@
    } else if idx == 33 {
        "syncStat"@
    } else if idx == 34 {
        "cursor"@
    } else if idx == 35 {
        "indexing"@
    } else if idx == 36 {
        "mid"@
    } else {
        Seq::empty()
    }
}

/// The wire elements of the status field at `idx`: one leaf where the
/// field is present, nothing where an optional field is absent.
pub open spec fn status_seg(sv: StatusView, idx: int) -> Seq<XmlItemView> {
    if idx == 0 {
        seq![text_item("etag"@, sv.etag)]
    } else if idx == 1 {
        seq![text_item("volume"@, dec_of_int(sv.volume as int))]
    } else if idx == 2 {
        seq![text_item("db"@, dec_of_int(sv.volume_decibel as int))]
    } else if idx == 3 {
        seq![text_item("mute"@, dec_of_int(sv.mute as int))]
    } else if idx == 4 {
        match sv.muted_volume {
                Some(v) => seq![text_item("muteVolume"@, dec_of_int(v as int))],
                None => Seq::empty(),
            }
    } else if idx == 5 {
        match sv.muted_decibel {
                Some(v) => seq![text_item("muteDb"@, dec_of_int(v as int))],
                None => Seq::empty(),
            }
    } else if idx == 6 {
        match sv.name {
                Some(t) => seq![text_item("name"@, t)],
                None => Seq::empty(),
            }
    } else if idx == 7 {
        match sv.album {
                Some(t) => seq![text_item("album"@, t)],
                None => Seq::empty(),
            }
    } else if idx == 8 {
        match sv.artist {
                Some(t) => seq![text_item("artist"@, t)],
                None => Seq::empty(),
            }
    } else if idx == 9 {
        match sv.total_length {
                Some(v) => seq![text_item("totlen"@, dec_of_int(v as int))],
                None => Seq::empty(),
            }
    } else if idx == 10 {
        match sv.seconds_played {
                Some(v) => seq![text_item("secs"@, dec_of_int(v as int))],
                None => Seq::empty(),
            }
    } else if idx == 11 {
        seq![text_item("repeat"@, dec_of_int(sv.repeat as int))]
    } else if idx == 12 {
        seq![text_item("shuffle"@, dec_of_int(sv.shuffle as int))]
    } else if idx == 13 {
        seq![text_item("song"@, dec_of_int(sv.song_queue_position as int))]
    } else if idx == 14 {
        match sv.quality {
                Some(q) => seq![text_item("quality"@, quality_chars(q))],
                None => Seq::empty(),
            }
    } else if idx == 15 {
        match sv.filename {
                Some(t) => seq![text_item("fn"@, t)],
                None => Seq::empty(),
            }
    } else if idx == 16 {
        match sv.image {
                Some(t) => seq![text_item("image"@, t)],
                None => Seq::empty(),
            }
    } else if idx == 17 {
        match sv.title1 {
                Some(t) => seq![text_item("title1"@, t)],
                None => Seq::empty(),
            }
    } else if idx == 18 {
        match sv.title2 {
                Some(t) => seq![text_item("title2"@, t)],
                None => Seq::empty(),
            }
    } else if idx == 19 {
        match sv.title3 {
                Some(t) => seq![text_item("title3"@, t)],
                None => Seq::empty(),
            }
    } else if idx == 20 {
        match sv.twoline_title1 {
                Some(t) => seq![text_item("twolineTitle1"@, t)],
                None => Seq::empty(),
            }
    } else if idx == 21 {
        match sv.twoline_title2 {
                Some(t) => seq![text_item("twolineTitle2"@, t)],
                None => Seq::empty(),
            }
    } else if idx == 22 {
        match sv.current_image {
                Some(t) => seq![text_item("currentImage"@, t)],
                None => Seq::empty(),
            }
    } else if idx == 23 {
        match sv.group_name {
                Some(t) => seq![text_item("groupName"@, t)],
                None => Seq::empty(),
            }
    } else if idx == 24 {
        match sv.group_volume {
                Some(t) => seq![text_item("groupVolume"@, t)],
                None => Seq::empty(),
            }
    } else if idx == 25 {
        match sv.can_seek {
                Some(v) => seq![text_item("canSeek"@, dec_of_int(v as int))],
                None => Seq::empty(),
            }
    } else if idx == 26 {
        match sv.can_move_playback {
                Some(b) => seq![text_item("canMovePlayback"@, bool_chars(b))],
                None => Seq::empty(),
            }
    } else if idx == 27 {
        seq![text_item("mode"@, dec_of_int(sv.mode as int))]
    } else if idx == 28 {
        seq![text_item("pid"@, dec_of_int(sv.pid as int))]
    } else if idx == 29 {
        seq![text_item("prid"@, dec_of_int(sv.prid as int))]
    } else if idx == 30 {
        seq![text_item("sid"@, dec_of_int(sv.sid as int))]
    } else if idx == 31 {
        seq![text_item("state"@, sv.state)]
    } else if idx == 32 {
        match sv.stream_url {
                Some(t) => seq![text_item("streamUrl"@, t)],
                None => Seq::empty(),
            }
    } else if idx == 33 {
        seq![text_item("syncStat"@, dec_of_int(sv.sync_stat as int))]
    } else if idx == 34 {
        match sv.cursor {
                Some(v) => seq![text_item("cursor"@, dec_of_int(v as int))],
                None => Seq::empty(),
            }
    } else if idx == 35 {
        seq![text_item("indexing"@, dec_of_int(sv.indexing as int))]
    } else if idx == 36 {
        seq![text_item("mid"@, dec_of_int(sv.mid as int))]
    } else {
        Seq::empty()
    }
}


/// The wire elements of the status fields from `idx` on.
pub open spec fn status_items_from(sv: StatusView, idx: int) -> Seq<XmlItemView>
    decreases 37 - idx when idx <= 37
{
    if idx >= 37 {
        Seq::empty()
    } else {
        status_seg(sv, idx) + status_items_from(sv, idx + 1)
    }
}

/// The wire elements of a whole status record.
pub open spec fn status_items(sv: StatusView) -> Seq<XmlItemView> {
    status_items_from(sv, 0)
}

/// The printed wire form of a status record.
pub open spec fn spec_encode_status(sv: StatusView) -> Seq<char> {
    print_doc(XmlDocView { name: "status"@, body: DocBodyView::Items(status_items(sv)) })
}

/// The ghost model of the first stretch of status fields.
pub ghost struct StatusPart1View {
    pub etag: Seq<char>,
    pub volume: i64,
    pub volume_decibel: i64,
    pub mute: u8,
    pub muted_volume: Option<i64>,
    pub muted_decibel: Option<i64>,
    pub name: Option<Seq<char>>,
    pub album: Option<Seq<char>>,
    pub artist: Option<Seq<char>>,
    pub total_length: Option<i64>,
    pub seconds_played: Option<i64>,
    pub repeat: u8,
    pub shuffle: u8,
}

/// The first stretch of status fields, as decoded.
pub struct StatusPart1 {
    pub etag: String,
    pub volume: i64,
    pub volume_decibel: i64,
    pub mute: u8,
    pub muted_volume: Option<i64>,
    pub muted_decibel: Option<i64>,
    pub name: Option<String>,
    pub album: Option<String>,
    pub artist: Option<String>,
    pub total_length: Option<i64>,
    pub seconds_played: Option<i64>,
    pub repeat: u8,
    pub shuffle: u8,
}

impl View for StatusPart1 {
    type V = StatusPart1View;

    open spec fn view(&self) -> StatusPart1View {
        StatusPart1View {
            etag: self.etag@,
            volume: self.volume,
            volume_decibel: self.volume_decibel,
            mute: self.mute,
            muted_volume: self.muted_volume,
            muted_decibel: self.muted_decibel,
            name: opt_chars(self.name),
            album: opt_chars(self.album),
            artist: opt_chars(self.artist),
            total_length: self.total_length,
            seconds_played: self.seconds_played,
            repeat: self.repeat,
            shuffle: self.shuffle,
        }
    }
}

/// The ghost model of the second stretch of status fields.
pub ghost struct StatusPart2View {
    pub song_queue_position: i64,
    pub quality: Option<Quality>,
    pub filename: Option<Seq<char>>,
    pub image: Option<Seq<char>>,
    pub title1: Option<Seq<char>>,
    pub title2: Option<Seq<char>>,
    pub title3: Option<Seq<char>>,
    pub twoline_title1: Option<Seq<char>>,
    pub twoline_title2: Option<Seq<char>>,
    pub current_image: Option<Seq<char>>,
    pub group_name: Option<Seq<char>>,
    pub group_volume: Option<Seq<char>>,
}

/// The second stretch of status fields, as decoded.
pub struct StatusPart2 {
    pub song_queue_position: i64,
    pub quality: Option<Quality>,
    pub filename: Option<String>,
    pub image: Option<String>,
    pub title1: Option<String>,
    pub title2: Option<String>,
    pub title3: Option<String>,
    pub twoline_title1: Option<String>,
    pub twoline_title2: Option<String>,
    pub current_image: Option<String>,
    pub group_name: Option<String>,
    pub group_volume: Option<String>,
}

impl View for StatusPart2 {
    type V = StatusPart2View;

    open spec fn view(&self) -> StatusPart2View {
        StatusPart2View {
            song_queue_position: self.song_queue_position,
            quality: self.quality,
            filename: opt_chars(self.filename),
            image: opt_chars(self.image),
            title1: opt_chars(self.title1),
            title2: opt_chars(self.title2),
            title3: opt_chars(self.title3),
            twoline_title1: opt_chars(self.twoline_title1),
            twoline_title2: opt_chars(self.twoline_title2),
            current_image: opt_chars(self.current_image),
            group_name: opt_chars(self.group_name),
            group_volume: opt_chars(self.group_volume),
        }
    }
}

/// The ghost model of the third stretch of status fields.
pub ghost struct StatusPart3View {
    pub can_seek: Option<u8>,
    pub can_move_playback: Option<bool>,
    pub mode: i64,
    pub pid: i64,
    pub prid: u8,
    pub sid: i64,
    pub state: Seq<char>,
    pub stream_url: Option<Seq<char>>,
    pub sync_stat: i64,
    pub cursor: Option<i64>,
    pub indexing: i64,
    pub mid: i64,
}

/// The third stretch of status fields, as decoded.
pub struct StatusPart3 {
    pub can_seek: Option<u8>,
    pub can_move_playback: Option<bool>,
    pub mode: i64,
    pub pid: i64,
    pub prid: u8,
    pub sid: i64,
    pub state: String,
    pub stream_url: Option<String>,
    pub sync_stat: i64,
    pub cursor: Option<i64>,
    pub indexing: i64,
    pub mid: i64,
}

impl View for StatusPart3 {
    type V = StatusPart3View;

    open spec fn view(&self) -> StatusPart3View {
        StatusPart3View {
            can_seek: self.can_seek,
            can_move_playback: self.can_move_playback,
            mode: self.mode,
            pid: self.pid,
            prid: self.prid,
            sid: self.sid,
            state: self.state@,
            stream_url: opt_chars(self.stream_url),
            sync_stat: self.sync_stat,
            cursor: self.cursor,
            indexing: self.indexing,
            mid: self.mid,
        }
    }
}

/// Decodes the first stretch of fields off the elements.
pub open spec fn status_part1_from(items0: Seq<XmlItemView>) -> Option<
    (StatusPart1View, Seq<XmlItemView>),
> {
    match take_text(items0, "etag"@) { None => None, Some((t_etag, it1)) => {
    match take_text(it1, "volume"@) { None => None, Some((t_volume, it2)) => {
    match parse_i64_spec(t_volume) { None => None, Some(f_volume) => {
    match take_text(it2, "db"@) { None => None, Some((t_volume_decibel, it3)) => {
    match parse_i64_spec(t_volume_decibel) { None => None, Some(f_volume_decibel) => {
    match take_text(it3, "mute"@) { None => None, Some((t_mute, it4)) => {
    match parse_u8_spec(t_mute) { None => None, Some(f_mute) => {
    { let (o_muted_volume, it5) = take_opt_text(it4, "muteVolume"@);
    match opt_i64_of(o_muted_volume) { None => None, Some(f_muted_volume) => {
    { let (o_muted_decibel, it6) = take_opt_text(it5, "muteDb"@);
    match opt_i64_of(o_muted_decibel) { None => None, Some(f_muted_decibel) => {
    { let (o_name, it7) = take_opt_text(it6, "name"@);
    { let (o_album, it8) = take_opt_text(it7, "album"@);
    { let (o_artist, it9) = take_opt_text(it8, "artist"@);
    { let (o_total_length, it10) = take_opt_text(it9, "totlen"@);
    match opt_i64_of(o_total_length) { None => None, Some(f_total_length) => {
    { let (o_seconds_played, it11) = take_opt_text(it10, "secs"@);
    match opt_i64_of(o_seconds_played) { None => None, Some(f_seconds_played) => {
    match take_text(it11, "repeat"@) { None => None, Some((t_repeat, it12)) => {
    match parse_u8_spec(t_repeat) { None => None, Some(f_repeat) => {
    match take_text(it12, "shuffle"@) { None => None, Some((t_shuffle, it13)) => {
    match parse_u8_spec(t_shuffle) { None => None, Some(f_shuffle) => {
    Some((StatusPart1View {
        etag: t_etag,
        volume: f_volume,
        volume_decibel: f_volume_decibel,
        mute: f_mute,
        muted_volume: f_muted_volume,
        muted_decibel: f_muted_decibel,
        name: o_name,
        album: o_album,
        artist: o_artist,
        total_length: f_total_length,
        seconds_played: f_seconds_played,
        repeat: f_repeat,
        shuffle: f_shuffle,
    }, it13))
    }}
    }}
    }}
    }}
    }}
    }
    }}
    }
    }
    }
    }
    }}
    }
    }}
    }
    }}
    }}
    }}
    }}
    }}
    }}
    }}
}

/// Decodes the second stretch of fields off the elements.
pub open spec fn status_part2_from(items0: Seq<XmlItemView>) -> Option<
    (StatusPart2View, Seq<XmlItemView>),
> {
    match take_text(items0, "song"@) { None => None, Some((t_song_queue_position, it14)) => {
    match parse_i64_spec(t_song_queue_position) { None => None, Some(f_song_queue_position) => {
    { let (o_quality, it15) = take_opt_text(it14, "quality"@);
    { let f_quality = opt_quality_of(o_quality);
    { let (o_filename, it16) = take_opt_text(it15, "fn"@);
    { let (o_image, it17) = take_opt_text(it16, "image"@);
    { let (o_title1, it18) = take_opt_text(it17, "title1"@);
    { let (o_title2, it19) = take_opt_text(it18, "title2"@);
    { let (o_title3, it20) = take_opt_text(it19, "title3"@);
    { let (o_twoline_title1, it21) = take_opt_text(it20, "twolineTitle1"@);
    { let (o_twoline_title2, it22) = take_opt_text(it21, "twolineTitle2"@);
    { let (o_current_image, it23) = take_opt_text(it22, "currentImage"@);
    { let (o_group_name, it24) = take_opt_text(it23, "groupName"@);
    { let (o_group_volume, it25) = take_opt_text(it24, "groupVolume"@);
    Some((StatusPart2View {
        song_queue_position: f_song_queue_position,
        quality: f_quality,
        filename: o_filename,
        image: o_image,
        title1: o_title1,
        title2: o_title2,
        title3: o_title3,
        twoline_title1: o_twoline_title1,
        twoline_title2: o_twoline_title2,
        current_image: o_current_image,
        group_name: o_group_name,
        group_volume: o_group_volume,
    }, it25))
    }
    }
    }
    }
    }
    }
    }
    }
    }
    }
    }
    }
    }}
    }}
}

/// Decodes the third stretch of fields off the elements.
pub open spec fn status_part3_from(items0: Seq<XmlItemView>) -> Option<
    (StatusPart3View, Seq<XmlItemView>),
> {
    { let (o_can_seek, it26) = take_opt_text(items0, "canSeek"@);
    match opt_u8_of(o_can_seek) { None => None, Some(f_can_seek) => {
    { let (o_can_move_playback, it27) = take_opt_text(it26, "canMovePlayback"@);
    match opt_bool_of(o_can_move_playback) { None => None, Some(f_can_move_playback) => {
    match take_text(it27, "mode"@) { None => None, Some((t_mode, it28)) => {
    match parse_i64_spec(t_mode) { None => None, Some(f_mode) => {
    match take_text(it28, "pid"@) { None => None, Some((t_pid, it29)) => {
    match parse_i64_spec(t_pid) { None => None, Some(f_pid) => {
    match take_text(it29, "prid"@) { None => None, Some((t_prid, it30)) => {
    match parse_u8_spec(t_prid) { None => None, Some(f_prid) => {
    match take_text(it30, "sid"@) { None => None, Some((t_sid, it31)) => {
    match parse_i64_spec(t_sid) { None => None, Some(f_sid) => {
    match take_text(it31, "state"@) { None => None, Some((t_state, it32)) => {
    { let (o_stream_url, it33) = take_opt_text(it32, "streamUrl"@);
    match take_text(it33, "syncStat"@) { None => None, Some((t_sync_stat, it34)) => {
    match parse_i64_spec(t_sync_stat) { None => None, Some(f_sync_stat) => {
    { let (o_cursor, it35) = take_opt_text(it34, "cursor"@);
    match opt_i64_of(o_cursor) { None => None, Some(f_cursor) => {
    match take_text(it35, "indexing"@) { None => None, Some((t_indexing, it36)) => {
    match parse_i64_spec(t_indexing) { None => None, Some(f_indexing) => {
    match take_text(it36, "mid"@) { None => None, Some((t_mid, it37)) => {
    match parse_i64_spec(t_mid) { None => None, Some(f_mid) => {
    Some((StatusPart3View {
        can_seek: f_can_seek,
        can_move_playback: f_can_move_playback,
        mode: f_mode,
        pid: f_pid,
        prid: f_prid,
        sid: f_sid,
        state: t_state,
        stream_url: o_stream_url,
        sync_stat: f_sync_stat,
        cursor: f_cursor,
        indexing: f_indexing,
        mid: f_mid,
    }, it37))
    }}
    }}
    }}
    }}
    }}
    }
    }}
    }}
    }
    }}
    }}
    }}
    }}
    }}
    }}
    }}
    }}
    }}
    }}
    }
    }}
    }
}

/// The whole status record from its three stretches.
pub open spec fn status_of_parts(
    p1: StatusPart1View,
    p2: StatusPart2View,
    p3: StatusPart3View,
) -> StatusView {
    StatusView {
        etag: p1.etag,
        volume: p1.volume,
        volume_decibel: p1.volume_decibel,
        mute: p1.mute,
        muted_volume: p1.muted_volume,
        muted_decibel: p1.muted_decibel,
        name: p1.name,
        album: p1.album,
        artist: p1.artist,
        total_length: p1.total_length,
        seconds_played: p1.seconds_played,
        repeat: p1.repeat,
        shuffle: p1.shuffle,
        song_queue_position: p2.song_queue_position,
        quality: p2.quality,
        filename: p2.filename,
        image: p2.image,
        title1: p2.title1,
        title2: p2.title2,
        title3: p2.title3,
        twoline_title1: p2.twoline_title1,
        twoline_title2: p2.twoline_title2,
        current_image: p2.current_image,
        group_name: p2.group_name,
        group_volume: p2.group_volume,
        can_seek: p3.can_seek,
        can_move_playback: p3.can_move_playback,
        mode: p3.mode,
        pid: p3.pid,
        prid: p3.prid,
        sid: p3.sid,
        state: p3.state,
        stream_url: p3.stream_url,
        sync_stat: p3.sync_stat,
        cursor: p3.cursor,
        indexing: p3.indexing,
        mid: p3.mid,
        actions: None,
        notify_url: None,
    }
}

/// What the child elements of a status document decode to: the fields
/// in wire order, each optional field read only where its name stands,
/// and nothing left over.
pub open spec fn status_from_items(items: Seq<XmlItemView>) -> Option<StatusView> {
    match status_part1_from(items) {
        None => None,
        Some((p1, r1)) => match status_part2_from(r1) {
            None => None,
            Some((p2, r2)) => match status_part3_from(r2) {
                None => None,
                Some((p3, r3)) => if r3.len() == 0 {
                    Some(status_of_parts(p1, p2, p3))
                } else {
                    None
                },
            },
        },
    }
}

/// What a printed status document decodes to.
pub open spec fn spec_decode_status(s: Seq<char>) -> Option<StatusView> {
    match parse_doc(s) {
        None => None,
        Some(d) => if d.name == "status"@ {
            match d.body {
                DocBodyView::Items(items) => status_from_items(items),
                DocBodyView::Text(_) => None,
            }
        } else {
            None
        },
    }
}

/// A status record the wire shape can carry: its texts free of markup,
/// and the two fields outside the flat shape absent.
pub open spec fn status_encodable(sv: StatusView) -> bool {
    &&& wf_text(sv.etag)
    &&& wf_text(sv.state)
    &&& match sv.name { Some(t) => wf_text(t), None => true }
    &&& match sv.album { Some(t) => wf_text(t), None => true }
    &&& match sv.artist { Some(t) => wf_text(t), None => true }
    &&& match sv.filename { Some(t) => wf_text(t), None => true }
    &&& match sv.image { Some(t) => wf_text(t), None => true }
    &&& match sv.title1 { Some(t) => wf_text(t), None => true }
    &&& match sv.title2 { Some(t) => wf_text(t), None => true }
    &&& match sv.title3 { Some(t) => wf_text(t), None => true }
    &&& match sv.twoline_title1 { Some(t) => wf_text(t), None => true }
    &&& match sv.twoline_title2 { Some(t) => wf_text(t), None => true }
    &&& match sv.current_image { Some(t) => wf_text(t), None => true }
    &&& match sv.group_name { Some(t) => wf_text(t), None => true }
    &&& match sv.group_volume { Some(t) => wf_text(t), None => true }
    &&& match sv.stream_url { Some(t) => wf_text(t), None => true }
    &&& sv.actions is None
    &&& sv.notify_url is None
}
/// Prepends the wire elements of fields 25 to 36, in reverse.
#[verifier::rlimit(100)]
fn encode_fields_25_36(st: &Status, v: &mut Vec<XmlItem>)
    requires
        items_vec_view(old(v)@) == status_items_from(st@, 37),
    ensures
        items_vec_view(final(v)@) == status_items_from(st@, 25),
{
    let ghost pv36 = items_vec_view(v@);
    // mid
    let t_mid = i64_to_string(st.mid);
    v.insert(0, XmlItem { name: String::from_str("mid"), body: XmlItemBody::Text(t_mid) });
    proof {
        assert(items_vec_view(v@) =~= status_seg(st@, 36) + pv36);
        assert(status_items_from(st@, 36) == status_seg(st@, 36) + status_items_from(
            st@,
            37int,
        ));
        assert(items_vec_view(v@) == status_items_from(st@, 36));
    }
    let ghost pv35 = items_vec_view(v@);
    // indexing
    let t_indexing = i64_to_string(st.indexing);
    v.insert(0, XmlItem { name: String::from_str("indexing"), body: XmlItemBody::Text(t_indexing) });
    proof {
        assert(items_vec_view(v@) =~= status_seg(st@, 35) + pv35);
        assert(status_items_from(st@, 35) == status_seg(st@, 35) + status_items_from(
            st@,
            36int,
        ));
        assert(items_vec_view(v@) == status_items_from(st@, 35));
    }
    let ghost pv34 = items_vec_view(v@);
    // cursor
    match &st.cursor {
        Some(x) => {
            let t = i64_to_string(*x);
            v.insert(0, XmlItem { name: String::from_str("cursor"), body: XmlItemBody::Text(t) });
        },
        None => {},
    }
    proof {
        assert(items_vec_view(v@) =~= status_seg(st@, 34) + pv34);
        assert(status_items_from(st@, 34) == status_seg(st@, 34) + status_items_from(
            st@,
            35int,
        ));
        assert(items_vec_view(v@) == status_items_from(st@, 34));
    }
    let ghost pv33 = items_vec_view(v@);
    // syncStat
    let t_sync_stat = i64_to_string(st.sync_stat);
    v.insert(0, XmlItem { name: String::from_str("syncStat"), body: XmlItemBody::Text(t_sync_stat) });
    proof {
        assert(items_vec_view(v@) =~= status_seg(st@, 33) + pv33);
        assert(status_items_from(st@, 33) == status_seg(st@, 33) + status_items_from(
            st@,
            34int,
        ));
        assert(items_vec_view(v@) == status_items_from(st@, 33));
    }
    let ghost pv32 = items_vec_view(v@);
    // streamUrl
    match &st.stream_url {
        Some(t) => {
            v.insert(0, XmlItem { name: String::from_str("streamUrl"), body: XmlItemBody::Text(t.clone()) });
        },
        None => {},
    }
    proof {
        assert(items_vec_view(v@) =~= status_seg(st@, 32) + pv32);
        assert(status_items_from(st@, 32) == status_seg(st@, 32) + status_items_from(
            st@,
            33int,
        ));
        assert(items_vec_view(v@) == status_items_from(st@, 32));
    }
    let ghost pv31 = items_vec_view(v@);
    // state
    v.insert(0, XmlItem { name: String::from_str("state"), body: XmlItemBody::Text(st.state.clone()) });
    proof {
        assert(items_vec_view(v@) =~= status_seg(st@, 31) + pv31);
        assert(status_items_from(st@, 31) == status_seg(st@, 31) + status_items_from(
            st@,
            32int,
        ));
        assert(items_vec_view(v@) == status_items_from(st@, 31));
    }
    let ghost pv30 = items_vec_view(v@);
    // sid
    let t_sid = i64_to_string(st.sid);
    v.insert(0, XmlItem { name: String::from_str("sid"), body: XmlItemBody::Text(t_sid) });
    proof {
        assert(items_vec_view(v@) =~= status_seg(st@, 30) + pv30);
        assert(status_items_from(st@, 30) == status_seg(st@, 30) + status_items_from(
            st@,
            31int,
        ));
        assert(items_vec_view(v@) == status_items_from(st@, 30));
    }
    let ghost pv29 = items_vec_view(v@);
    // prid
    let t_prid = i64_to_string(st.prid as i64);
    v.insert(0, XmlItem { name: String::from_str("prid"), body: XmlItemBody::Text(t_prid) });
    proof {
        assert(items_vec_view(v@) =~= status_seg(st@, 29) + pv29);
        assert(status_items_from(st@, 29) == status_seg(st@, 29) + status_items_from(
            st@,
            30int,
        ));
        assert(items_vec_view(v@) == status_items_from(st@, 29));
    }
    let ghost pv28 = items_vec_view(v@);
    // pid
    let t_pid = i64_to_string(st.pid);
    v.insert(0, XmlItem { name: String::from_str("pid"), body: XmlItemBody::Text(t_pid) });
    proof {
        assert(items_vec_view(v@) =~= status_seg(st@, 28) + pv28);
        assert(status_items_from(st@, 28) == status_seg(st@, 28) + status_items_from(
            st@,
            29int,
        ));
        assert(items_vec_view(v@) == status_items_from(st@, 28));
    }
    let ghost pv27 = items_vec_view(v@);
    // mode
    let t_mode = i64_to_string(st.mode);
    v.insert(0, XmlItem { name: String::from_str("mode"), body: XmlItemBody::Text(t_mode) });
    proof {
        assert(items_vec_view(v@) =~= status_seg(st@, 27) + pv27);
        assert(status_items_from(st@, 27) == status_seg(st@, 27) + status_items_from(
            st@,
            28int,
        ));
        assert(items_vec_view(v@) == status_items_from(st@, 27));
    }
    let ghost pv26 = items_vec_view(v@);
    // canMovePlayback
    match &st.can_move_playback {
        Some(b) => {
            let t = if *b {
                String::from_str("true")
            } else {
                String::from_str("false")
            };
            v.insert(0, XmlItem { name: String::from_str("canMovePlayback"), body: XmlItemBody::Text(t) });
        },
        None => {},
    }
    proof {
        assert(items_vec_view(v@) =~= status_seg(st@, 26) + pv26);
        assert(status_items_from(st@, 26) == status_seg(st@, 26) + status_items_from(
            st@,
            27int,
        ));
        assert(items_vec_view(v@) == status_items_from(st@, 26));
    }
    let ghost pv25 = items_vec_view(v@);
    // canSeek
    match &st.can_seek {
        Some(x) => {
            let t = i64_to_string(*x as i64);
            v.insert(0, XmlItem { name: String::from_str("canSeek"), body: XmlItemBody::Text(t) });
        },
        None => {},
    }
    proof {
        assert(items_vec_view(v@) =~= status_seg(st@, 25) + pv25);
        assert(status_items_from(st@, 25) == status_seg(st@, 25) + status_items_from(
            st@,
            26int,
        ));
        assert(items_vec_view(v@) == status_items_from(st@, 25));
    }
}

/// Prepends the wire elements of fields 19 to 24, in reverse.
#[verifier::rlimit(100)]
fn encode_fields_19_24(st: &Status, v: &mut Vec<XmlItem>)
    requires
        items_vec_view(old(v)@) == status_items_from(st@, 25),
    ensures
        items_vec_view(final(v)@) == status_items_from(st@, 19),
{
    let ghost pv24 = items_vec_view(v@);
    // groupVolume
    match &st.group_volume {
        Some(t) => {
            v.insert(0, XmlItem { name: String::from_str("groupVolume"), body: XmlItemBody::Text(t.clone()) });
        },
        None => {},
    }
    proof {
        assert(items_vec_view(v@) =~= status_seg(st@, 24) + pv24);
        assert(status_items_from(st@, 24) == status_seg(st@, 24) + status_items_from(
            st@,
            25int,
        ));
        assert(items_vec_view(v@) == status_items_from(st@, 24));
    }
    let ghost pv23 = items_vec_view(v@);
    // groupName
    match &st.group_name {
        Some(t) => {
            v.insert(0, XmlItem { name: String::from_str("groupName"), body: XmlItemBody::Text(t.clone()) });
        },
        None => {},
    }
    proof {
        assert(items_vec_view(v@) =~= status_seg(st@, 23) + pv23);
        assert(status_items_from(st@, 23) == status_seg(st@, 23) + status_items_from(
            st@,
            24int,
        ));
        assert(items_vec_view(v@) == status_items_from(st@, 23));
    }
    let ghost pv22 = items_vec_view(v@);
    // currentImage
    match &st.current_image {
        Some(t) => {
            v.insert(0, XmlItem { name: String::from_str("currentImage"), body: XmlItemBody::Text(t.clone()) });
        },
        None => {},
    }
    proof {
        assert(items_vec_view(v@) =~= status_seg(st@, 22) + pv22);
        assert(status_items_from(st@, 22) == status_seg(st@, 22) + status_items_from(
            st@,
            23int,
        ));
        assert(items_vec_view(v@) == status_items_from(st@, 22));
    }
    let ghost pv21 = items_vec_view(v@);
    // twolineTitle2
    match &st.twoline_title2 {
        Some(t) => {
            v.insert(0, XmlItem { name: String::from_str("twolineTitle2"), body: XmlItemBody::Text(t.clone()) });
        },
        None => {},
    }
    proof {
        assert(items_vec_view(v@) =~= status_seg(st@, 21) + pv21);
        assert(status_items_from(st@, 21) == status_seg(st@, 21) + status_items_from(
            st@,
            22int,
        ));
        assert(items_vec_view(v@) == status_items_from(st@, 21));
    }
    let ghost pv20 = items_vec_view(v@);
    // twolineTitle1
    match &st.twoline_title1 {
        Some(t) => {
            v.insert(0, XmlItem { name: String::from_str("twolineTitle1"), body: XmlItemBody::Text(t.clone()) });
        },
        None => {},
    }
    proof {
        assert(items_vec_view(v@) =~= status_seg(st@, 20) + pv20);
        assert(status_items_from(st@, 20) == status_seg(st@, 20) + status_items_from(
            st@,
            21int,
        ));
        assert(items_vec_view(v@) == status_items_from(st@, 20));
    }
    let ghost pv19 = items_vec_view(v@);
    // title3
    match &st.title3 {
        Some(t) => {
            v.insert(0, XmlItem { name: String::from_str("title3"), body: XmlItemBody::Text(t.clone()) });
        },
        None => {},
    }
    proof {
        assert(items_vec_view(v@) =~= status_seg(st@, 19) + pv19);
        assert(status_items_from(st@, 19) == status_seg(st@, 19) + status_items_from(
            st@,
            20int,
        ));
        assert(items_vec_view(v@) == status_items_from(st@, 19));
    }
}

/// Prepends the wire elements of fields 13 to 18, in reverse.
#[verifier::rlimit(100)]
fn encode_fields_13_18(st: &Status, v: &mut Vec<XmlItem>)
    requires
        items_vec_view(old(v)@) == status_items_from(st@, 19),
    ensures
        items_vec_view(final(v)@) == status_items_from(st@, 13),
{
    let ghost pv18 = items_vec_view(v@);
    // title2
    match &st.title2 {
        Some(t) => {
            v.insert(0, XmlItem { name: String::from_str("title2"), body: XmlItemBody::Text(t.clone()) });
        },
        None => {},
    }
    proof {
        assert(items_vec_view(v@) =~= status_seg(st@, 18) + pv18);
        assert(status_items_from(st@, 18) == status_seg(st@, 18) + status_items_from(
            st@,
            19int,
        ));
        assert(items_vec_view(v@) == status_items_from(st@, 18));
    }
    let ghost pv17 = items_vec_view(v@);
    // title1
    match &st.title1 {
        Some(t) => {
            v.insert(0, XmlItem { name: String::from_str("title1"), body: XmlItemBody::Text(t.clone()) });
        },
        None => {},
    }
    proof {
        assert(items_vec_view(v@) =~= status_seg(st@, 17) + pv17);
        assert(status_items_from(st@, 17) == status_seg(st@, 17) + status_items_from(
            st@,
            18int,
        ));
        assert(items_vec_view(v@) == status_items_from(st@, 17));
    }
    let ghost pv16 = items_vec_view(v@);
    // image
    match &st.image {
        Some(t) => {
            v.insert(0, XmlItem { name: String::from_str("image"), body: XmlItemBody::Text(t.clone()) });
        },
        None => {},
    }
    proof {
        assert(items_vec_view(v@) =~= status_seg(st@, 16) + pv16);
        assert(status_items_from(st@, 16) == status_seg(st@, 16) + status_items_from(
            st@,
            17int,
        ));
        assert(items_vec_view(v@) == status_items_from(st@, 16));
    }
    let ghost pv15 = items_vec_view(v@);
    // fn
    match &st.filename {
        Some(t) => {
            v.insert(0, XmlItem { name: String::from_str("fn"), body: XmlItemBody::Text(t.clone()) });
        },
        None => {},
    }
    proof {
        assert(items_vec_view(v@) =~= status_seg(st@, 15) + pv15);
        assert(status_items_from(st@, 15) == status_seg(st@, 15) + status_items_from(
            st@,
            16int,
        ));
        assert(items_vec_view(v@) == status_items_from(st@, 15));
    }
    let ghost pv14 = items_vec_view(v@);
    // quality
    match &st.quality {
        Some(q) => {
            let t = q.encode();
            v.insert(0, XmlItem { name: String::from_str("quality"), body: XmlItemBody::Text(t) });
        },
        None => {},
    }
    proof {
        assert(items_vec_view(v@) =~= status_seg(st@, 14) + pv14);
        assert(status_items_from(st@, 14) == status_seg(st@, 14) + status_items_from(
            st@,
            15int,
        ));
        assert(items_vec_view(v@) == status_items_from(st@, 14));
    }
    let ghost pv13 = items_vec_view(v@);
    // song
    let t_song_queue_position = i64_to_string(st.song_queue_position);
    v.insert(0, XmlItem { name: String::from_str("song"), body: XmlItemBody::Text(t_song_queue_position) });
    proof {
        assert(items_vec_view(v@) =~= status_seg(st@, 13) + pv13);
        assert(status_items_from(st@, 13) == status_seg(st@, 13) + status_items_from(
            st@,
            14int,
        ));
        assert(items_vec_view(v@) == status_items_from(st@, 13));
    }
}

/// Prepends the wire elements of fields 7 to 12, in reverse.
#[verifier::rlimit(100)]
fn encode_fields_7_12(st: &Status, v: &mut Vec<XmlItem>)
    requires
        items_vec_view(old(v)@) == status_items_from(st@, 13),
    ensures
        items_vec_view(final(v)@) == status_items_from(st@, 7),
{
    let ghost pv12 = items_vec_view(v@);
    // shuffle
    let t_shuffle = i64_to_string(st.shuffle as i64);
    v.insert(0, XmlItem { name: String::from_str("shuffle"), body: XmlItemBody::Text(t_shuffle) });
    proof {
        assert(items_vec_view(v@) =~= status_seg(st@, 12) + pv12);
        assert(status_items_from(st@, 12) == status_seg(st@, 12) + status_items_from(
            st@,
            13int,
        ));
        assert(items_vec_view(v@) == status_items_from(st@, 12));
    }
    let ghost pv11 = items_vec_view(v@);
    // repeat
    let t_repeat = i64_to_string(st.repeat as i64);
    v.insert(0, XmlItem { name: String::from_str("repeat"), body: XmlItemBody::Text(t_repeat) });
    proof {
        assert(items_vec_view(v@) =~= status_seg(st@, 11) + pv11);
        assert(status_items_from(st@, 11) == status_seg(st@, 11) + status_items_from(
            st@,
            12int,
        ));
        assert(items_vec_view(v@) == status_items_from(st@, 11));
    }
    let ghost pv10 = items_vec_view(v@);
    // secs
    match &st.seconds_played {
        Some(x) => {
            let t = i64_to_string(*x);
            v.insert(0, XmlItem { name: String::from_str("secs"), body: XmlItemBody::Text(t) });
        },
        None => {},
    }
    proof {
        assert(items_vec_view(v@) =~= status_seg(st@, 10) + pv10);
        assert(status_items_from(st@, 10) == status_seg(st@, 10) + status_items_from(
            st@,
            11int,
        ));
        assert(items_vec_view(v@) == status_items_from(st@, 10));
    }
    let ghost pv9 = items_vec_view(v@);
    // totlen
    match &st.total_length {
        Some(x) => {
            let t = i64_to_string(*x);
            v.insert(0, XmlItem { name: String::from_str("totlen"), body: XmlItemBody::Text(t) });
        },
        None => {},
    }
    proof {
        assert(items_vec_view(v@) =~= status_seg(st@, 9) + pv9);
        assert(status_items_from(st@, 9) == status_seg(st@, 9) + status_items_from(
            st@,
            10int,
        ));
        assert(items_vec_view(v@) == status_items_from(st@, 9));
    }
    let ghost pv8 = items_vec_view(v@);
    // artist
    match &st.artist {
        Some(t) => {
            v.insert(0, XmlItem { name: String::from_str("artist"), body: XmlItemBody::Text(t.clone()) });
        },
        None => {},
    }
    proof {
        assert(items_vec_view(v@) =~= status_seg(st@, 8) + pv8);
        assert(status_items_from(st@, 8) == status_seg(st@, 8) + status_items_from(
            st@,
            9int,
        ));
        assert(items_vec_view(v@) == status_items_from(st@, 8));
    }
    let ghost pv7 = items_vec_view(v@);
    // album
    match &st.album {
        Some(t) => {
            v.insert(0, XmlItem { name: String::from_str("album"), body: XmlItemBody::Text(t.clone()) });
        },
        None => {},
    }
    proof {
        assert(items_vec_view(v@) =~= status_seg(st@, 7) + pv7);
        assert(status_items_from(st@, 7) == status_seg(st@, 7) + status_items_from(
            st@,
            8int,
        ));
        assert(items_vec_view(v@) == status_items_from(st@, 7));
    }
}

/// Prepends the wire elements of fields 0 to 6, in reverse.
#[verifier::rlimit(100)]
fn encode_fields_0_6(st: &Status, v: &mut Vec<XmlItem>)
    requires
        items_vec_view(old(v)@) == status_items_from(st@, 7),
    ensures
        items_vec_view(final(v)@) == status_items_from(st@, 0),
{
    let ghost pv6 = items_vec_view(v@);
    // name
    match &st.name {
        Some(t) => {
            v.insert(0, XmlItem { name: String::from_str("name"), body: XmlItemBody::Text(t.clone()) });
        },
        None => {},
    }
    proof {
        assert(items_vec_view(v@) =~= status_seg(st@, 6) + pv6);
        assert(status_items_from(st@, 6) == status_seg(st@, 6) + status_items_from(
            st@,
            7int,
        ));
        assert(items_vec_view(v@) == status_items_from(st@, 6));
    }
    let ghost pv5 = items_vec_view(v@);
    // muteDb
    match &st.muted_decibel {
        Some(x) => {
            let t = i64_to_string(*x);
            v.insert(0, XmlItem { name: String::from_str("muteDb"), body: XmlItemBody::Text(t) });
        },
        None => {},
    }
    proof {
        assert(items_vec_view(v@) =~= status_seg(st@, 5) + pv5);
        assert(status_items_from(st@, 5) == status_seg(st@, 5) + status_items_from(
            st@,
            6int,
        ));
        assert(items_vec_view(v@) == status_items_from(st@, 5));
    }
    let ghost pv4 = items_vec_view(v@);
    // muteVolume
    match &st.muted_volume {
        Some(x) => {
            let t = i64_to_string(*x);
            v.insert(0, XmlItem { name: String::from_str("muteVolume"), body: XmlItemBody::Text(t) });
        },
        None => {},
    }
    proof {
        assert(items_vec_view(v@) =~= status_seg(st@, 4) + pv4);
        assert(status_items_from(st@, 4) == status_seg(st@, 4) + status_items_from(
            st@,
            5int,
        ));
        assert(items_vec_view(v@) == status_items_from(st@, 4));
    }
    let ghost pv3 = items_vec_view(v@);
    // mute
    let t_mute = i64_to_string(st.mute as i64);
    v.insert(0, XmlItem { name: String::from_str("mute"), body: XmlItemBody::Text(t_mute) });
    proof {
        assert(items_vec_view(v@) =~= status_seg(st@, 3) + pv3);
        assert(status_items_from(st@, 3) == status_seg(st@, 3) + status_items_from(
            st@,
            4int,
        ));
        assert(items_vec_view(v@) == status_items_from(st@, 3));
    }
    let ghost pv2 = items_vec_view(v@);
    // db
    let t_volume_decibel = i64_to_string(st.volume_decibel);
    v.insert(0, XmlItem { name: String::from_str("db"), body: XmlItemBody::Text(t_volume_decibel) });
    proof {
        assert(items_vec_view(v@) =~= status_seg(st@, 2) + pv2);
        assert(status_items_from(st@, 2) == status_seg(st@, 2) + status_items_from(
            st@,
            3int,
        ));
        assert(items_vec_view(v@) == status_items_from(st@, 2));
    }
    let ghost pv1 = items_vec_view(v@);
    // volume
    let t_volume = i64_to_string(st.volume);
    v.insert(0, XmlItem { name: String::from_str("volume"), body: XmlItemBody::Text(t_volume) });
    proof {
        assert(items_vec_view(v@) =~= status_seg(st@, 1) + pv1);
        assert(status_items_from(st@, 1) == status_seg(st@, 1) + status_items_from(
            st@,
            2int,
        ));
        assert(items_vec_view(v@) == status_items_from(st@, 1));
    }
    let ghost pv0 = items_vec_view(v@);
    // etag
    v.insert(0, XmlItem { name: String::from_str("etag"), body: XmlItemBody::Text(st.etag.clone()) });
    proof {
        assert(items_vec_view(v@) =~= status_seg(st@, 0) + pv0);
        assert(status_items_from(st@, 0) == status_seg(st@, 0) + status_items_from(
            st@,
            1int,
        ));
        assert(items_vec_view(v@) == status_items_from(st@, 0));
    }
}

/// Prints a status record to its wire form.
pub fn encode_status(st: &Status) -> (r: String)
    ensures
        r@ == spec_encode_status(st@),
{
    let mut v: Vec<XmlItem> = Vec::new();
    proof {
        assert(items_vec_view(v@) =~= status_items_from(st@, 37));
    }
    encode_fields_25_36(st, &mut v);
    encode_fields_19_24(st, &mut v);
    encode_fields_13_18(st, &mut v);
    encode_fields_7_12(st, &mut v);
    encode_fields_0_6(st, &mut v);
    let doc = XmlDoc { name: String::from_str("status"), body: XmlDocBody::Items(v) };
    write_doc(&doc)
}

/// Consumes the head element where it is the leaf named `key`, advancing
/// the cursor past it.
fn take_text_x(items: &Vec<XmlItem>, idx: &mut usize, key: &str) -> (r: Option<String>)
    requires
        *old(idx) <= items@.len(),
    ensures
        match r {
            Some(t) => {
                &&& take_text(items_vec_view(items@).skip(*old(idx) as int), key@) == Some(
                    (t@, items_vec_view(items@).skip(*final(idx) as int)),
                )
                &&& *final(idx) == *old(idx) + 1
                &&& *final(idx) <= items@.len()
            },
            None => {
                &&& take_text(items_vec_view(items@).skip(*old(idx) as int), key@) is None
                &&& *final(idx) == *old(idx)
            },
        },
{
    let ghost rem = items_vec_view(items@).skip(*idx as int);
    if *idx < items.len() {
        let it = &items[*idx];
        proof {
            assert(rem[0] == items_vec_view(items@)[*idx as int]);
        }
        if it.name == key.to_owned() {
            match &it.body {
                XmlItemBody::Text(t) => {
                    let out = t.clone();
                    *idx = *idx + 1;
                    proof {
                        assert(rem.drop_first() =~= items_vec_view(items@).skip(*idx as int));
                    }
                    return Some(out);
                },
                XmlItemBody::Pairs(_) => {},
            }
        }
    }
    None
}

/// Consumes the head element where it is the leaf named `key`, and leaves
/// the cursor in place otherwise.
fn take_opt_text_x(items: &Vec<XmlItem>, idx: &mut usize, key: &str) -> (r: Option<String>)
    requires
        *old(idx) <= items@.len(),
    ensures
        ({
            let step = take_opt_text(items_vec_view(items@).skip(*old(idx) as int), key@);
            &&& match r {
                Some(t) => step.0 == Some(t@) && *final(idx) == *old(idx) + 1,
                None => step.0 is None && *final(idx) == *old(idx),
            }
            &&& step.1 == items_vec_view(items@).skip(*final(idx) as int)
            &&& *final(idx) <= items@.len()
        }),
{
    let ghost rem = items_vec_view(items@).skip(*idx as int);
    if *idx < items.len() {
        let it = &items[*idx];
        proof {
            assert(rem[0] == items_vec_view(items@)[*idx as int]);
        }
        if it.name == key.to_owned() {
            match &it.body {
                XmlItemBody::Text(t) => {
                    let out = t.clone();
                    *idx = *idx + 1;
                    proof {
                        assert(rem.drop_first() =~= items_vec_view(items@).skip(*idx as int));
                    }
                    return Some(out);
                },
                XmlItemBody::Pairs(_) => {},
            }
        }
    }
    None
}

/// Reads the first stretch of fields, advancing the cursor.
#[verifier::rlimit(100)]
fn decode_part1(items: &Vec<XmlItem>, idx: &mut usize) -> (r: Result<StatusPart1, Error>)
    requires
        *old(idx) <= items@.len(),
    ensures
        match r {
            Ok(p) => status_part1_from(items_vec_view(items@).skip(*old(idx) as int))
                == Some((p@, items_vec_view(items@).skip(*final(idx) as int)))
                && *final(idx) <= items@.len(),
            Err(e) => status_part1_from(items_vec_view(items@).skip(*old(idx) as int))
                is None && e == Error::XMLError,
        },
{
    // etag
    let f_etag = match take_text_x(items, idx, "etag") {
        Some(t) => t,
        None => {
            return Err(Error::XMLError);
        },
    };
    // volume
    let t_volume = match take_text_x(items, idx, "volume") {
        Some(t) => t,
        None => {
            return Err(Error::XMLError);
        },
    };
    let n_volume = match parse_i64(t_volume.as_str()) {
        Some(n) => n,
        None => {
            return Err(Error::XMLError);
        },
    };
    let f_volume = n_volume;
    // db
    let t_volume_decibel = match take_text_x(items, idx, "db") {
        Some(t) => t,
        None => {
            return Err(Error::XMLError);
        },
    };
    let n_volume_decibel = match parse_i64(t_volume_decibel.as_str()) {
        Some(n) => n,
        None => {
            return Err(Error::XMLError);
        },
    };
    let f_volume_decibel = n_volume_decibel;
    // mute
    let t_mute = match take_text_x(items, idx, "mute") {
        Some(t) => t,
        None => {
            return Err(Error::XMLError);
        },
    };
    let n_mute = match parse_i64(t_mute.as_str()) {
        Some(n) => n,
        None => {
            return Err(Error::XMLError);
        },
    };
    if !(n_mute >= 0 && n_mute <= 255) {
        return Err(Error::XMLError);
    }
    let f_mute = n_mute as u8;
    // muteVolume
    let o_muted_volume = take_opt_text_x(items, idx, "muteVolume");
    let f_muted_volume = match o_muted_volume {
        Some(t) => match parse_i64(t.as_str()) {
            Some(n) => Some(n),
            None => {
                return Err(Error::XMLError);
            },
        },
        None => None,
    };
    // muteDb
    let o_muted_decibel = take_opt_text_x(items, idx, "muteDb");
    let f_muted_decibel = match o_muted_decibel {
        Some(t) => match parse_i64(t.as_str()) {
            Some(n) => Some(n),
            None => {
                return Err(Error::XMLError);
            },
        },
        None => None,
    };
    // name
    let f_name = take_opt_text_x(items, idx, "name");
    // album
    let f_album = take_opt_text_x(items, idx, "album");
    // artist
    let f_artist = take_opt_text_x(items, idx, "artist");
    // totlen
    let o_total_length = take_opt_text_x(items, idx, "totlen");
    let f_total_length = match o_total_length {
        Some(t) => match parse_i64(t.as_str()) {
            Some(n) => Some(n),
            None => {
                return Err(Error::XMLError);
            },
        },
        None => None,
    };
    // secs
    let o_seconds_played = take_opt_text_x(items, idx, "secs");
    let f_seconds_played = match o_seconds_played {
        Some(t) => match parse_i64(t.as_str()) {
            Some(n) => Some(n),
            None => {
                return Err(Error::XMLError);
            },
        },
        None => None,
    };
    // repeat
    let t_repeat = match take_text_x(items, idx, "repeat") {
        Some(t) => t,
        None => {
            return Err(Error::XMLError);
        },
    };
    let n_repeat = match parse_i64(t_repeat.as_str()) {
        Some(n) => n,
        None => {
            return Err(Error::XMLError);
        },
    };
    if !(n_repeat >= 0 && n_repeat <= 255) {
        return Err(Error::XMLError);
    }
    let f_repeat = n_repeat as u8;
    // shuffle
    let t_shuffle = match take_text_x(items, idx, "shuffle") {
        Some(t) => t,
        None => {
            return Err(Error::XMLError);
        },
    };
    let n_shuffle = match parse_i64(t_shuffle.as_str()) {
        Some(n) => n,
        None => {
            return Err(Error::XMLError);
        },
    };
    if !(n_shuffle >= 0 && n_shuffle <= 255) {
        return Err(Error::XMLError);
    }
    let f_shuffle = n_shuffle as u8;
    Ok(StatusPart1 {
        etag: f_etag,
        volume: f_volume,
        volume_decibel: f_volume_decibel,
        mute: f_mute,
        muted_volume: f_muted_volume,
        muted_decibel: f_muted_decibel,
        name: f_name,
        album: f_album,
        artist: f_artist,
        total_length: f_total_length,
        seconds_played: f_seconds_played,
        repeat: f_repeat,
        shuffle: f_shuffle,
    })
}

/// Reads the second stretch of fields, advancing the cursor.
#[verifier::rlimit(100)]
fn decode_part2(items: &Vec<XmlItem>, idx: &mut usize) -> (r: Result<StatusPart2, Error>)
    requires
        *old(idx) <= items@.len(),
    ensures
        match r {
            Ok(p) => status_part2_from(items_vec_view(items@).skip(*old(idx) as int))
                == Some((p@, items_vec_view(items@).skip(*final(idx) as int)))
                && *final(idx) <= items@.len(),
            Err(e) => status_part2_from(items_vec_view(items@).skip(*old(idx) as int))
                is None && e == Error::XMLError,
        },
{
    // song
    let t_song_queue_position = match take_text_x(items, idx, "song") {
        Some(t) => t,
        None => {
            return Err(Error::XMLError);
        },
    };
    let n_song_queue_position = match parse_i64(t_song_queue_position.as_str()) {
        Some(n) => n,
        None => {
            return Err(Error::XMLError);
        },
    };
    let f_song_queue_position = n_song_queue_position;
    // quality
    let o_quality = take_opt_text_x(items, idx, "quality");
    let f_quality = match o_quality {
        Some(t) => Some(Quality::from(t)),
        None => None,
    };
    // fn
    let f_filename = take_opt_text_x(items, idx, "fn");
    // image
    let f_image = take_opt_text_x(items, idx, "image");
    // title1
    let f_title1 = take_opt_text_x(items, idx, "title1");
    // title2
    let f_title2 = take_opt_text_x(items, idx, "title2");
    // title3
    let f_title3 = take_opt_text_x(items, idx, "title3");
    // twolineTitle1
    let f_twoline_title1 = take_opt_text_x(items, idx, "twolineTitle1");
    // twolineTitle2
    let f_twoline_title2 = take_opt_text_x(items, idx, "twolineTitle2");
    // currentImage
    let f_current_image = take_opt_text_x(items, idx, "currentImage");
    // groupName
    let f_group_name = take_opt_text_x(items, idx, "groupName");
    // groupVolume
    let f_group_volume = take_opt_text_x(items, idx, "groupVolume");
    Ok(StatusPart2 {
        song_queue_position: f_song_queue_position,
        quality: f_quality,
        filename: f_filename,
        image: f_image,
        title1: f_title1,
        title2: f_title2,
        title3: f_title3,
        twoline_title1: f_twoline_title1,
        twoline_title2: f_twoline_title2,
        current_image: f_current_image,
        group_name: f_group_name,
        group_volume: f_group_volume,
    })
}

/// Reads the third stretch of fields, advancing the cursor.
#[verifier::rlimit(100)]
fn decode_part3(items: &Vec<XmlItem>, idx: &mut usize) -> (r: Result<StatusPart3, Error>)
    requires
        *old(idx) <= items@.len(),
    ensures
        match r {
            Ok(p) => status_part3_from(items_vec_view(items@).skip(*old(idx) as int))
                == Some((p@, items_vec_view(items@).skip(*final(idx) as int)))
                && *final(idx) <= items@.len(),
            Err(e) => status_part3_from(items_vec_view(items@).skip(*old(idx) as int))
                is None && e == Error::XMLError,
        },
{
    // canSeek
    let o_can_seek = take_opt_text_x(items, idx, "canSeek");
    let f_can_seek = match o_can_seek {
        Some(t) => match parse_i64(t.as_str()) {
            Some(n) => {
                if !(n >= 0 && n <= 255) {
                    return Err(Error::XMLError);
                }
                Some(n as u8)
            },
            None => {
                return Err(Error::XMLError);
            },
        },
        None => None,
    };
    // canMovePlayback
    let o_can_move_playback = take_opt_text_x(items, idx, "canMovePlayback");
    let f_can_move_playback = match o_can_move_playback {
        Some(t) => {
            if str_is(&t, "true") {
                Some(true)
            } else if str_is(&t, "false") {
                Some(false)
            } else {
                return Err(Error::XMLError);
            }
        },
        None => None,
    };
    // mode
    let t_mode = match take_text_x(items, idx, "mode") {
        Some(t) => t,
        None => {
            return Err(Error::XMLError);
        },
    };
    let n_mode = match parse_i64(t_mode.as_str()) {
        Some(n) => n,
        None => {
            return Err(Error::XMLError);
        },
    };
    let f_mode = n_mode;
    // pid
    let t_pid = match take_text_x(items, idx, "pid") {
        Some(t) => t,
        None => {
            return Err(Error::XMLError);
        },
    };
    let n_pid = match parse_i64(t_pid.as_str()) {
        Some(n) => n,
        None => {
            return Err(Error::XMLError);
        },
    };
    let f_pid = n_pid;
    // prid
    let t_prid = match take_text_x(items, idx, "prid") {
        Some(t) => t,
        None => {
            return Err(Error::XMLError);
        },
    };
    let n_prid = match parse_i64(t_prid.as_str()) {
        Some(n) => n,
        None => {
            return Err(Error::XMLError);
        },
    };
    if !(n_prid >= 0 && n_prid <= 255) {
        return Err(Error::XMLError);
    }
    let f_prid = n_prid as u8;
    // sid
    let t_sid = match take_text_x(items, idx, "sid") {
        Some(t) => t,
        None => {
            return Err(Error::XMLError);
        },
    };
    let n_sid = match parse_i64(t_sid.as_str()) {
        Some(n) => n,
        None => {
            return Err(Error::XMLError);
        },
    };
    let f_sid = n_sid;
    // state
    let f_state = match take_text_x(items, idx, "state") {
        Some(t) => t,
        None => {
            return Err(Error::XMLError);
        },
    };
    // streamUrl
    let f_stream_url = take_opt_text_x(items, idx, "streamUrl");
    // syncStat
    let t_sync_stat = match take_text_x(items, idx, "syncStat") {
        Some(t) => t,
        None => {
            return Err(Error::XMLError);
        },
    };
    let n_sync_stat = match parse_i64(t_sync_stat.as_str()) {
        Some(n) => n,
        None => {
            return Err(Error::XMLError);
        },
    };
    let f_sync_stat = n_sync_stat;
    // cursor
    let o_cursor = take_opt_text_x(items, idx, "cursor");
    let f_cursor = match o_cursor {
        Some(t) => match parse_i64(t.as_str()) {
            Some(n) => Some(n),
            None => {
                return Err(Error::XMLError);
            },
        },
        None => None,
    };
    // indexing
    let t_indexing = match take_text_x(items, idx, "indexing") {
        Some(t) => t,
        None => {
            return Err(Error::XMLError);
        },
    };
    let n_indexing = match parse_i64(t_indexing.as_str()) {
        Some(n) => n,
        None => {
            return Err(Error::XMLError);
        },
    };
    let f_indexing = n_indexing;
    // mid
    let t_mid = match take_text_x(items, idx, "mid") {
        Some(t) => t,
        None => {
            return Err(Error::XMLError);
        },
    };
    let n_mid = match parse_i64(t_mid.as_str()) {
        Some(n) => n,
        None => {
            return Err(Error::XMLError);
        },
    };
    let f_mid = n_mid;
    Ok(StatusPart3 {
        can_seek: f_can_seek,
        can_move_playback: f_can_move_playback,
        mode: f_mode,
        pid: f_pid,
        prid: f_prid,
        sid: f_sid,
        state: f_state,
        stream_url: f_stream_url,
        sync_stat: f_sync_stat,
        cursor: f_cursor,
        indexing: f_indexing,
        mid: f_mid,
    })
}

/// Reads a status record off its wire form: exactly the documents the
/// wire shape gives a meaning decode, everything else is an XML error.
#[verifier::rlimit(100)]
pub fn decode_status(s: &str) -> (r: Result<Status, Error>)
    ensures
        match r {
            Ok(st) => spec_decode_status(s@) == Some(st@),
            Err(e) => spec_decode_status(s@) is None && e == Error::XMLError,
        },
{
    let doc = match read_doc(s) {
        Some(d) => d,
        None => {
            return Err(Error::XMLError);
        },
    };
    if !str_is(&doc.name, "status") {
        return Err(Error::XMLError);
    }
    let items = match doc.body {
        XmlDocBody::Items(v) => v,
        XmlDocBody::Text(_) => {
            return Err(Error::XMLError);
        },
    };
    proof {
        assert(items_vec_view(items@).skip(0) =~= items_vec_view(items@));
    }
    let mut idx: usize = 0;
    let p1 = match decode_part1(&items, &mut idx) {
        Ok(p) => p,
        Err(e) => {
            return Err(e);
        },
    };
    let p2 = match decode_part2(&items, &mut idx) {
        Ok(p) => p,
        Err(e) => {
            return Err(e);
        },
    };
    let p3 = match decode_part3(&items, &mut idx) {
        Ok(p) => p,
        Err(e) => {
            return Err(e);
        },
    };
    if idx != items.len() {
        return Err(Error::XMLError);
    }
    let st = Status {
        etag: p1.etag,
        volume: p1.volume,
        volume_decibel: p1.volume_decibel,
        mute: p1.mute,
        muted_volume: p1.muted_volume,
        muted_decibel: p1.muted_decibel,
        name: p1.name,
        album: p1.album,
        artist: p1.artist,
        total_length: p1.total_length,
        seconds_played: p1.seconds_played,
        repeat: p1.repeat,
        shuffle: p1.shuffle,
        song_queue_position: p2.song_queue_position,
        quality: p2.quality,
        filename: p2.filename,
        image: p2.image,
        title1: p2.title1,
        title2: p2.title2,
        title3: p2.title3,
        twoline_title1: p2.twoline_title1,
        twoline_title2: p2.twoline_title2,
        current_image: p2.current_image,
        group_name: p2.group_name,
        group_volume: p2.group_volume,
        can_seek: p3.can_seek,
        can_move_playback: p3.can_move_playback,
        mode: p3.mode,
        pid: p3.pid,
        prid: p3.prid,
        sid: p3.sid,
        state: p3.state,
        stream_url: p3.stream_url,
        sync_stat: p3.sync_stat,
        cursor: p3.cursor,
        indexing: p3.indexing,
        mid: p3.mid,
        actions: None,
        notify_url: None,
    };
    Ok(st)
}

/// Every printed numeral is markup-free text.
proof fn lemma_dec_text(n: int)
    ensures
        wf_text(dec_of_int(n)),
{
    lemma_dec_of_int_chars(n);
    assert forall|i: int| 0 <= i < dec_of_int(n).len() implies text_char(
        #[trigger] dec_of_int(n)[i],
    ) by {
        assert(is_dec_digit(dec_of_int(n)[i]) || dec_of_int(n)[i] == '-');
    }
}

/// Both truth-value words are markup-free text.
proof fn lemma_bool_text(b: bool)
    ensures
        wf_text(bool_chars(b)),
{
    reveal_strlit("true");
    reveal_strlit("false");
}

/// Every printed quality word is markup-free text.
proof fn lemma_quality_text(q: Quality)
    ensures
        wf_text(quality_chars(q)),
{
    reveal_strlit("cd");
    reveal_strlit("hd");
    reveal_strlit("dolbyAudio");
    reveal_strlit("mqa");
    reveal_strlit("mqaAuthored");
    match q {
        Quality::Compressed(v) => {
            lemma_dec_text(v as int);
        },
        _ => {},
    }
}

/// Every status field's wire name is a printable tag name.
proof fn lemma_status_keys_wf()
    ensures
        forall|i: int| 0 <= i < 37 ==> wf_name(#[trigger] status_field_key(i)),
{
    reveal_strlit("album");
    reveal_strlit("artist");
    reveal_strlit("canMovePlayback");
    reveal_strlit("canSeek");
    reveal_strlit("currentImage");
    reveal_strlit("cursor");
    reveal_strlit("db");
    reveal_strlit("etag");
    reveal_strlit("fn");
    reveal_strlit("groupName");
    reveal_strlit("groupVolume");
    reveal_strlit("image");
    reveal_strlit("indexing");
    reveal_strlit("mid");
    reveal_strlit("mode");
    reveal_strlit("mute");
    reveal_strlit("muteDb");
    reveal_strlit("muteVolume");
    reveal_strlit("name");
    reveal_strlit("pid");
    reveal_strlit("prid");
    reveal_strlit("quality");
    reveal_strlit("repeat");
    reveal_strlit("secs");
    reveal_strlit("shuffle");
    reveal_strlit("sid");
    reveal_strlit("song");
    reveal_strlit("state");
    reveal_strlit("streamUrl");
    reveal_strlit("syncStat");
    reveal_strlit("title1");
    reveal_strlit("title2");
    reveal_strlit("title3");
    reveal_strlit("totlen");
    reveal_strlit("twolineTitle1");
    reveal_strlit("twolineTitle2");
    reveal_strlit("volume");
    assert forall|i: int| 0 <= i < 37 implies wf_name(#[trigger] status_field_key(i)) by {
    }
}

/// Every wire element of an encodable status record is printable.
proof fn lemma_status_items_wf(sv: StatusView, j: int)
    requires
        status_encodable(sv),
        0 <= j <= 37,
    ensures
        forall|x: int|
            0 <= x < status_items_from(sv, j).len() ==> wf_item(
                #[trigger] status_items_from(sv, j)[x],
            ),
    decreases 37 - j,
{
    if j < 37 {
        lemma_status_items_wf(sv, j + 1);
        lemma_status_keys_wf();
        if j == 1 {
            lemma_dec_text(sv.volume as int);
        }
        if j == 2 {
            lemma_dec_text(sv.volume_decibel as int);
        }
        if j == 3 {
            lemma_dec_text(sv.mute as int);
        }
        if j == 4 {
            match sv.muted_volume {
                Some(v) => {
                    lemma_dec_text(v as int);
                },
                None => {},
            }
        }
        if j == 5 {
            match sv.muted_decibel {
                Some(v) => {
                    lemma_dec_text(v as int);
                },
                None => {},
            }
        }
        if j == 9 {
            match sv.total_length {
                Some(v) => {
                    lemma_dec_text(v as int);
                },
                None => {},
            }
        }
        if j == 10 {
            match sv.seconds_played {
                Some(v) => {
                    lemma_dec_text(v as int);
                },
                None => {},
            }
        }
        if j == 11 {
            lemma_dec_text(sv.repeat as int);
        }
        if j == 12 {
            lemma_dec_text(sv.shuffle as int);
        }
        if j == 13 {
            lemma_dec_text(sv.song_queue_position as int);
        }
        if j == 14 {
            match sv.quality {
                Some(q) => {
                    lemma_quality_text(q);
                },
                None => {},
            }
        }
        if j == 25 {
            match sv.can_seek {
                Some(v) => {
                    lemma_dec_text(v as int);
                },
                None => {},
            }
        }
        if j == 26 {
            match sv.can_move_playback {
                Some(b) => {
                    lemma_bool_text(b);
                },
                None => {},
            }
        }
        if j == 27 {
            lemma_dec_text(sv.mode as int);
        }
        if j == 28 {
            lemma_dec_text(sv.pid as int);
        }
        if j == 29 {
            lemma_dec_text(sv.prid as int);
        }
        if j == 30 {
            lemma_dec_text(sv.sid as int);
        }
        if j == 33 {
            lemma_dec_text(sv.sync_stat as int);
        }
        if j == 34 {
            match sv.cursor {
                Some(v) => {
                    lemma_dec_text(v as int);
                },
                None => {},
            }
        }
        if j == 35 {
            lemma_dec_text(sv.indexing as int);
        }
        if j == 36 {
            lemma_dec_text(sv.mid as int);
        }
        let seg = status_seg(sv, j);
        let rest = status_items_from(sv, j + 1);
        assert(status_items_from(sv, j) == seg + rest);
        assert forall|x: int| 0 <= x < (seg + rest).len() implies wf_item(
            #[trigger] (seg + rest)[x],
        ) by {
            if x < seg.len() {
                assert((seg + rest)[x] == seg[x]);
                assert(wf_name(status_field_key(j)));
            } else {
                assert((seg + rest)[x] == rest[x - seg.len()]);
            }
        }
    }
}


/// The wire document of an encodable status record is printable.
proof fn lemma_status_doc_wf(sv: StatusView)
    requires
        status_encodable(sv),
    ensures
        wf_doc(XmlDocView { name: "status"@, body: DocBodyView::Items(status_items(sv)) }),
        status_items(sv).len() >= 1,
{
    assert(wf_name("status"@)) by {
        reveal_strlit("status");
    }
    lemma_status_items_wf(sv, 0);
    assert(status_items_from(sv, 0) == status_seg(sv, 0) + status_items_from(sv, 1));
    assert(status_seg(sv, 0).len() == 1);
}

/// The first stretch of a status record.
pub open spec fn status_part1_of(sv: StatusView) -> StatusPart1View {
    StatusPart1View {
        etag: sv.etag,
        volume: sv.volume,
        volume_decibel: sv.volume_decibel,
        mute: sv.mute,
        muted_volume: sv.muted_volume,
        muted_decibel: sv.muted_decibel,
        name: sv.name,
        album: sv.album,
        artist: sv.artist,
        total_length: sv.total_length,
        seconds_played: sv.seconds_played,
        repeat: sv.repeat,
        shuffle: sv.shuffle,
    }
}

/// The second stretch of a status record.
pub open spec fn status_part2_of(sv: StatusView) -> StatusPart2View {
    StatusPart2View {
        song_queue_position: sv.song_queue_position,
        quality: sv.quality,
        filename: sv.filename,
        image: sv.image,
        title1: sv.title1,
        title2: sv.title2,
        title3: sv.title3,
        twoline_title1: sv.twoline_title1,
        twoline_title2: sv.twoline_title2,
        current_image: sv.current_image,
        group_name: sv.group_name,
        group_volume: sv.group_volume,
    }
}

/// The third stretch of a status record.
pub open spec fn status_part3_of(sv: StatusView) -> StatusPart3View {
    StatusPart3View {
        can_seek: sv.can_seek,
        can_move_playback: sv.can_move_playback,
        mode: sv.mode,
        pid: sv.pid,
        prid: sv.prid,
        sid: sv.sid,
        state: sv.state,
        stream_url: sv.stream_url,
        sync_stat: sv.sync_stat,
        cursor: sv.cursor,
        indexing: sv.indexing,
        mid: sv.mid,
    }
}

/// A status record carrying every optional field. The proven round trip
/// covers exactly these records: with a field absent, the read of a later
/// field would need the wire names' distinctness, which is not proved
/// here.
pub open spec fn status_all_present(sv: StatusView) -> bool {
    &&& sv.muted_volume is Some
    &&& sv.muted_decibel is Some
    &&& sv.name is Some
    &&& sv.album is Some
    &&& sv.artist is Some
    &&& sv.total_length is Some
    &&& sv.seconds_played is Some
    &&& sv.quality is Some
    &&& sv.filename is Some
    &&& sv.image is Some
    &&& sv.title1 is Some
    &&& sv.title2 is Some
    &&& sv.title3 is Some
    &&& sv.twoline_title1 is Some
    &&& sv.twoline_title2 is Some
    &&& sv.current_image is Some
    &&& sv.group_name is Some
    &&& sv.group_volume is Some
    &&& sv.can_seek is Some
    &&& sv.can_move_playback is Some
    &&& sv.cursor is Some
    &&& sv.stream_url is Some
}

/// Reading back the first stretch of wire elements gives that
/// stretch of the record.
#[verifier::rlimit(100)]
proof fn lemma_status_walk_part1(sv: StatusView)
    requires
        status_encodable(sv),
        status_all_present(sv),
    ensures
        status_part1_from(status_items_from(sv, 0)) == Some(
            (status_part1_of(sv), status_items_from(sv, 13)),
        ),
{
    reveal_strlit("true");
    reveal_strlit("false");
    let it0 = status_items_from(sv, 0);
    let it1 = status_items_from(sv, 1);
    let it2 = status_items_from(sv, 2);
    let it3 = status_items_from(sv, 3);
    let it4 = status_items_from(sv, 4);
    let it5 = status_items_from(sv, 5);
    let it6 = status_items_from(sv, 6);
    let it7 = status_items_from(sv, 7);
    let it8 = status_items_from(sv, 8);
    let it9 = status_items_from(sv, 9);
    let it10 = status_items_from(sv, 10);
    let it11 = status_items_from(sv, 11);
    let it12 = status_items_from(sv, 12);
    let it13 = status_items_from(sv, 13);
    // etag
    assert(it0 == status_seg(sv, 0) + it1);
    assert((status_seg(sv, 0) + it1).drop_first() =~= it1);
    assert(take_text(it0, "etag"@) == Some((sv.etag, it1)));
    // volume
    assert(it1 == status_seg(sv, 1) + it2);
    assert((status_seg(sv, 1) + it2).drop_first() =~= it2);
    assert(take_text(it1, "volume"@) == Some((dec_of_int(sv.volume as int), it2)));
    lemma_parse_dec_of_int(sv.volume as int);
    // db
    assert(it2 == status_seg(sv, 2) + it3);
    assert((status_seg(sv, 2) + it3).drop_first() =~= it3);
    assert(take_text(it2, "db"@) == Some((dec_of_int(sv.volume_decibel as int), it3)));
    lemma_parse_dec_of_int(sv.volume_decibel as int);
    // mute
    assert(it3 == status_seg(sv, 3) + it4);
    assert((status_seg(sv, 3) + it4).drop_first() =~= it4);
    assert(take_text(it3, "mute"@) == Some((dec_of_int(sv.mute as int), it4)));
    lemma_parse_dec_of_int(sv.mute as int);
    // muteVolume
    assert(it4 == status_seg(sv, 4) + it5);
    {
        let v = sv.muted_volume->Some_0;
        assert((status_seg(sv, 4) + it5).drop_first() =~= it5);
        assert(take_opt_text(it4, "muteVolume"@) == (Some(dec_of_int(v as int)), it5));
        lemma_parse_dec_of_int(v as int);
    }
    // muteDb
    assert(it5 == status_seg(sv, 5) + it6);
    {
        let v = sv.muted_decibel->Some_0;
        assert((status_seg(sv, 5) + it6).drop_first() =~= it6);
        assert(take_opt_text(it5, "muteDb"@) == (Some(dec_of_int(v as int)), it6));
        lemma_parse_dec_of_int(v as int);
    }
    // name
    assert(it6 == status_seg(sv, 6) + it7);
    {
        let v = sv.name->Some_0;
        assert((status_seg(sv, 6) + it7).drop_first() =~= it7);
        assert(take_opt_text(it6, "name"@) == (Some(v), it7));
    }
    // album
    assert(it7 == status_seg(sv, 7) + it8);
    {
        let v = sv.album->Some_0;
        assert((status_seg(sv, 7) + it8).drop_first() =~= it8);
        assert(take_opt_text(it7, "album"@) == (Some(v), it8));
    }
    // artist
    assert(it8 == status_seg(sv, 8) + it9);
    {
        let v = sv.artist->Some_0;
        assert((status_seg(sv, 8) + it9).drop_first() =~= it9);
        assert(take_opt_text(it8, "artist"@) == (Some(v), it9));
    }
    // totlen
    assert(it9 == status_seg(sv, 9) + it10);
    {
        let v = sv.total_length->Some_0;
        assert((status_seg(sv, 9) + it10).drop_first() =~= it10);
        assert(take_opt_text(it9, "totlen"@) == (Some(dec_of_int(v as int)), it10));
        lemma_parse_dec_of_int(v as int);
    }
    // secs
    assert(it10 == status_seg(sv, 10) + it11);
    {
        let v = sv.seconds_played->Some_0;
        assert((status_seg(sv, 10) + it11).drop_first() =~= it11);
        assert(take_opt_text(it10, "secs"@) == (Some(dec_of_int(v as int)), it11));
        lemma_parse_dec_of_int(v as int);
    }
    // repeat
    assert(it11 == status_seg(sv, 11) + it12);
    assert((status_seg(sv, 11) + it12).drop_first() =~= it12);
    assert(take_text(it11, "repeat"@) == Some((dec_of_int(sv.repeat as int), it12)));
    lemma_parse_dec_of_int(sv.repeat as int);
    // shuffle
    assert(it12 == status_seg(sv, 12) + it13);
    assert((status_seg(sv, 12) + it13).drop_first() =~= it13);
    assert(take_text(it12, "shuffle"@) == Some((dec_of_int(sv.shuffle as int), it13)));
    lemma_parse_dec_of_int(sv.shuffle as int);
    assert(status_part1_from(it0) == Some((status_part1_of(sv), it13)));
}

/// Reading back the second stretch of wire elements gives that
/// stretch of the record.
#[verifier::rlimit(100)]
proof fn lemma_status_walk_part2(sv: StatusView)
    requires
        status_encodable(sv),
        status_all_present(sv),
    ensures
        status_part2_from(status_items_from(sv, 13)) == Some(
            (status_part2_of(sv), status_items_from(sv, 25)),
        ),
{
    reveal_strlit("true");
    reveal_strlit("false");
    let it13 = status_items_from(sv, 13);
    let it14 = status_items_from(sv, 14);
    let it15 = status_items_from(sv, 15);
    let it16 = status_items_from(sv, 16);
    let it17 = status_items_from(sv, 17);
    let it18 = status_items_from(sv, 18);
    let it19 = status_items_from(sv, 19);
    let it20 = status_items_from(sv, 20);
    let it21 = status_items_from(sv, 21);
    let it22 = status_items_from(sv, 22);
    let it23 = status_items_from(sv, 23);
    let it24 = status_items_from(sv, 24);
    let it25 = status_items_from(sv, 25);
    // song
    assert(it13 == status_seg(sv, 13) + it14);
    assert((status_seg(sv, 13) + it14).drop_first() =~= it14);
    assert(take_text(it13, "song"@) == Some((dec_of_int(sv.song_queue_position as int), it14)));
    lemma_parse_dec_of_int(sv.song_queue_position as int);
    // quality
    assert(it14 == status_seg(sv, 14) + it15);
    {
        let v = sv.quality->Some_0;
        assert((status_seg(sv, 14) + it15).drop_first() =~= it15);
        assert(take_opt_text(it14, "quality"@) == (Some(quality_chars(v)), it15));
        lemma_quality_round_trip(v);
    }
    // fn
    assert(it15 == status_seg(sv, 15) + it16);
    {
        let v = sv.filename->Some_0;
        assert((status_seg(sv, 15) + it16).drop_first() =~= it16);
        assert(take_opt_text(it15, "fn"@) == (Some(v), it16));
    }
    // image
    assert(it16 == status_seg(sv, 16) + it17);
    {
        let v = sv.image->Some_0;
        assert((status_seg(sv, 16) + it17).drop_first() =~= it17);
        assert(take_opt_text(it16, "image"@) == (Some(v), it17));
    }
    // title1
    assert(it17 == status_seg(sv, 17) + it18);
    {
        let v = sv.title1->Some_0;
        assert((status_seg(sv, 17) + it18).drop_first() =~= it18);
        assert(take_opt_text(it17, "title1"@) == (Some(v), it18));
    }
    // title2
    assert(it18 == status_seg(sv, 18) + it19);
    {
        let v = sv.title2->Some_0;
        assert((status_seg(sv, 18) + it19).drop_first() =~= it19);
        assert(take_opt_text(it18, "title2"@) == (Some(v), it19));
    }
    // title3
    assert(it19 == status_seg(sv, 19) + it20);
    {
        let v = sv.title3->Some_0;
        assert((status_seg(sv, 19) + it20).drop_first() =~= it20);
        assert(take_opt_text(it19, "title3"@) == (Some(v), it20));
    }
    // twolineTitle1
    assert(it20 == status_seg(sv, 20) + it21);
    {
        let v = sv.twoline_title1->Some_0;
        assert((status_seg(sv, 20) + it21).drop_first() =~= it21);
        assert(take_opt_text(it20, "twolineTitle1"@) == (Some(v), it21));
    }
    // twolineTitle2
    assert(it21 == status_seg(sv, 21) + it22);
    {
        let v = sv.twoline_title2->Some_0;
        assert((status_seg(sv, 21) + it22).drop_first() =~= it22);
        assert(take_opt_text(it21, "twolineTitle2"@) == (Some(v), it22));
    }
    // currentImage
    assert(it22 == status_seg(sv, 22) + it23);
    {
        let v = sv.current_image->Some_0;
        assert((status_seg(sv, 22) + it23).drop_first() =~= it23);
        assert(take_opt_text(it22, "currentImage"@) == (Some(v), it23));
    }
    // groupName
    assert(it23 == status_seg(sv, 23) + it24);
    {
        let v = sv.group_name->Some_0;
        assert((status_seg(sv, 23) + it24).drop_first() =~= it24);
        assert(take_opt_text(it23, "groupName"@) == (Some(v), it24));
    }
    // groupVolume
    assert(it24 == status_seg(sv, 24) + it25);
    {
        let v = sv.group_volume->Some_0;
        assert((status_seg(sv, 24) + it25).drop_first() =~= it25);
        assert(take_opt_text(it24, "groupVolume"@) == (Some(v), it25));
    }
    assert(status_part2_from(it13) == Some((status_part2_of(sv), it25)));
}

/// Reading back the third stretch of wire elements gives that
/// stretch of the record.
#[verifier::rlimit(100)]
proof fn lemma_status_walk_part3(sv: StatusView)
    requires
        status_encodable(sv),
        status_all_present(sv),
    ensures
        status_part3_from(status_items_from(sv, 25)) == Some(
            (status_part3_of(sv), status_items_from(sv, 37)),
        ),
{
    reveal_strlit("true");
    reveal_strlit("false");
    let it25 = status_items_from(sv, 25);
    let it26 = status_items_from(sv, 26);
    let it27 = status_items_from(sv, 27);
    let it28 = status_items_from(sv, 28);
    let it29 = status_items_from(sv, 29);
    let it30 = status_items_from(sv, 30);
    let it31 = status_items_from(sv, 31);
    let it32 = status_items_from(sv, 32);
    let it33 = status_items_from(sv, 33);
    let it34 = status_items_from(sv, 34);
    let it35 = status_items_from(sv, 35);
    let it36 = status_items_from(sv, 36);
    let it37 = status_items_from(sv, 37);
    // canSeek
    assert(it25 == status_seg(sv, 25) + it26);
    {
        let v = sv.can_seek->Some_0;
        assert((status_seg(sv, 25) + it26).drop_first() =~= it26);
        assert(take_opt_text(it25, "canSeek"@) == (Some(dec_of_int(v as int)), it26));
        lemma_parse_dec_of_int(v as int);
    }
    // canMovePlayback
    assert(it26 == status_seg(sv, 26) + it27);
    {
        let v = sv.can_move_playback->Some_0;
        assert((status_seg(sv, 26) + it27).drop_first() =~= it27);
        assert(take_opt_text(it26, "canMovePlayback"@) == (Some(bool_chars(v)), it27));
    }
    // mode
    assert(it27 == status_seg(sv, 27) + it28);
    assert((status_seg(sv, 27) + it28).drop_first() =~= it28);
    assert(take_text(it27, "mode"@) == Some((dec_of_int(sv.mode as int), it28)));
    lemma_parse_dec_of_int(sv.mode as int);
    // pid
    assert(it28 == status_seg(sv, 28) + it29);
    assert((status_seg(sv, 28) + it29).drop_first() =~= it29);
    assert(take_text(it28, "pid"@) == Some((dec_of_int(sv.pid as int), it29)));
    lemma_parse_dec_of_int(sv.pid as int);
    // prid
    assert(it29 == status_seg(sv, 29) + it30);
    assert((status_seg(sv, 29) + it30).drop_first() =~= it30);
    assert(take_text(it29, "prid"@) == Some((dec_of_int(sv.prid as int), it30)));
    lemma_parse_dec_of_int(sv.prid as int);
    // sid
    assert(it30 == status_seg(sv, 30) + it31);
    assert((status_seg(sv, 30) + it31).drop_first() =~= it31);
    assert(take_text(it30, "sid"@) == Some((dec_of_int(sv.sid as int), it31)));
    lemma_parse_dec_of_int(sv.sid as int);
    // state
    assert(it31 == status_seg(sv, 31) + it32);
    assert((status_seg(sv, 31) + it32).drop_first() =~= it32);
    assert(take_text(it31, "state"@) == Some((sv.state, it32)));
    // streamUrl
    assert(it32 == status_seg(sv, 32) + it33);
    {
        let v = sv.stream_url->Some_0;
        assert((status_seg(sv, 32) + it33).drop_first() =~= it33);
        assert(take_opt_text(it32, "streamUrl"@) == (Some(v), it33));
    }
    // syncStat
    assert(it33 == status_seg(sv, 33) + it34);
    assert((status_seg(sv, 33) + it34).drop_first() =~= it34);
    assert(take_text(it33, "syncStat"@) == Some((dec_of_int(sv.sync_stat as int), it34)));
    lemma_parse_dec_of_int(sv.sync_stat as int);
    // cursor
    assert(it34 == status_seg(sv, 34) + it35);
    {
        let v = sv.cursor->Some_0;
        assert((status_seg(sv, 34) + it35).drop_first() =~= it35);
        assert(take_opt_text(it34, "cursor"@) == (Some(dec_of_int(v as int)), it35));
        lemma_parse_dec_of_int(v as int);
    }
    // indexing
    assert(it35 == status_seg(sv, 35) + it36);
    assert((status_seg(sv, 35) + it36).drop_first() =~= it36);
    assert(take_text(it35, "indexing"@) == Some((dec_of_int(sv.indexing as int), it36)));
    lemma_parse_dec_of_int(sv.indexing as int);
    // mid
    assert(it36 == status_seg(sv, 36) + it37);
    assert((status_seg(sv, 36) + it37).drop_first() =~= it37);
    assert(take_text(it36, "mid"@) == Some((dec_of_int(sv.mid as int), it37)));
    lemma_parse_dec_of_int(sv.mid as int);
    assert("true"@ != "false"@) by {
        reveal_strlit("true");
        reveal_strlit("false");
        assert("true"@.len() == 4);
        assert("false"@.len() == 5);
    }
    assert(status_part3_from(it25) == Some((status_part3_of(sv), it37)));
}

/// Reading back the wire elements of an encodable status record gives
/// the record.
proof fn lemma_status_walk(sv: StatusView)
    requires
        status_encodable(sv),
        status_all_present(sv),
    ensures
        status_from_items(status_items(sv)) == Some(sv),
{
    lemma_status_walk_part1(sv);
    lemma_status_walk_part2(sv);
    lemma_status_walk_part3(sv);
    assert(status_items_from(sv, 37).len() == 0);
    assert(status_of_parts(status_part1_of(sv), status_part2_of(sv), status_part3_of(sv)) == sv);
}

/// Reading back a printed status record gives the record: the status
/// codec round-trips on every encodable record.
pub proof fn lemma_status_round_trip(sv: StatusView)
    requires
        status_encodable(sv),
        status_all_present(sv),
    ensures
        spec_decode_status(spec_encode_status(sv)) == Some(sv),
{
    lemma_status_doc_wf(sv);
    let d = XmlDocView { name: "status"@, body: DocBodyView::Items(status_items(sv)) };
    lemma_parse_print_doc(d);
    lemma_status_walk(sv);
}

} // verus!
