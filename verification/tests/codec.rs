use bluos::device::codec::{decode_status, encode_status};
use bluos::device::responses::{Quality, Status};

fn fixture() -> Status {
    Status {
        etag: String::from("abcd"),
        volume: 42,
        volume_decibel: -20,
        mute: 0,
        muted_volume: Some(10),
        muted_decibel: Some(-30),
        name: Some(String::from("Track")),
        album: Some(String::from("Album")),
        artist: Some(String::from("Artist")),
        total_length: Some(240),
        seconds_played: Some(10),
        repeat: 2,
        shuffle: 0,
        song_queue_position: 3,
        quality: Some(Quality::Compressed(320)),
        filename: Some(String::from("song.flac")),
        image: Some(String::from("http://img")),
        title1: Some(String::from("one")),
        title2: Some(String::from("two")),
        title3: Some(String::from("three")),
        twoline_title1: Some(String::from("a")),
        twoline_title2: Some(String::from("b")),
        current_image: Some(String::from("img2")),
        group_name: Some(String::from("grp")),
        group_volume: Some(String::from("30")),
        actions: None,
        can_seek: Some(1),
        can_move_playback: Some(true),
        notify_url: None,
        mode: 1,
        pid: 7,
        prid: 2,
        sid: 5,
        state: String::from("play"),
        stream_url: Some(String::from("http://s")),
        sync_stat: 9,
        cursor: Some(0),
        indexing: 0,
        mid: 4,
    }
}

#[test]
fn status_round_trips_through_the_codec() {
    let st = fixture();
    let wire = encode_status(&st);
    let back = decode_status(&wire).unwrap();
    assert_eq!(back, st);
}

#[test]
fn status_decode_rejects_junk() {
    assert!(decode_status("not xml at all").is_err());
    assert!(decode_status("<status><volume>1</volume></status>").is_err());
    assert!(decode_status("").is_err());
}

#[test]
fn encoded_status_is_tagged_xml() {
    let wire = encode_status(&fixture());
    assert!(wire.starts_with("<status>"));
    assert!(wire.ends_with("</status>"));
    assert!(wire.contains("<volume>42</volume>"));
    assert!(wire.contains("<state>play</state>"));
    assert!(wire.contains("<quality>320</quality>"));
    assert!(wire.contains("<db>-20</db>"));
}
