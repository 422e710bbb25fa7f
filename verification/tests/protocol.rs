use bluos::device::responses::Quality;
use bluos::device::{BluOS, Pagination, RepeatSetting};

#[test]
fn quality_decodes_the_vocabulary() {
    assert_eq!(Quality::from(String::from("mqa")), Quality::Mqa);
    assert_eq!(Quality::from(String::from("cd")), Quality::Cd);
    assert_eq!(Quality::from(String::from("320")), Quality::Compressed(320));
    assert_eq!(Quality::from(String::from("garbage")), Quality::Compressed(0));
}

#[test]
fn status_command_url() {
    let dev = BluOS::new("10.0.0.7", None);
    assert_eq!(dev.status_command().build(), "http://10.0.0.7:11000/Status");
}

#[test]
fn pause_and_shuffle_urls() {
    let dev = BluOS::new("p", Some(80));
    assert_eq!(dev.pause_command(true).build(), "http://p:80/Pause?toggle=1&");
    assert_eq!(dev.pause_command(false).build(), "http://p:80/Pause");
    assert_eq!(dev.shuffle_command(true).build(), "http://p:80/Shuffle?state=1&");
    assert_eq!(
        dev.repeat_command(RepeatSetting::Disable).build(),
        "http://p:80/Repeat?state=2&"
    );
}

#[test]
fn queue_pagination_url() {
    let dev = BluOS::new("p", Some(80));
    let url = dev
        .queue_command(Some(Pagination { start: 5, end: 25 }))
        .build();
    assert_eq!(url, "http://p:80/Playlist?start=5&end=25&");
    assert_eq!(dev.queue_delete_command(3).build(), "http://p:80/Delete?id=3&");
}
