use ytclip::commands::{bitrate_arg, decimal_string, download_args, section_arg, transcode_args};
use ytclip::plan::make_plan;

fn trim() -> (String, String) {
    ("0:00".to_string(), "1:30".to_string())
}

#[test]
fn decimal_strings() {
    assert_eq!(decimal_string(0), "0");
    assert_eq!(decimal_string(6), "6");
    assert_eq!(decimal_string(30), "30");
    assert_eq!(decimal_string(255), "255");
}

#[test]
fn section_token() {
    assert_eq!(section_arg("0:00", "1:30"), "*0:00-1:30");
}

#[test]
fn bitrate_flag() {
    assert_eq!(bitrate_arg(6), "-b:v=6M");
    assert_eq!(bitrate_arg(12), "-b:v=12M");
}

#[test]
fn downloader_argument_list() {
    let p = make_plan("https://example/v", "clip.mp4", &None, &trim()).unwrap();
    assert_eq!(
        download_args(&p),
        vec![
            "https://example/v".to_string(),
            "--download-sections".to_string(),
            "*0:00-1:30".to_string(),
            "--output".to_string(),
            "clip.webm".to_string(),
        ]
    );
}

#[test]
fn transcoder_argument_list_with_bitrate() {
    let p = make_plan("u", "clip.mp4", &Some("50".to_string()), &trim()).unwrap();
    let t = p.transcode.expect("a transcode step");
    assert_eq!(
        transcode_args(&t),
        vec![
            "-i".to_string(),
            "clip.webm".to_string(),
            "clip.mp4".to_string(),
            "-b:v=6M".to_string(),
            "".to_string(),
            "-y".to_string(),
        ]
    );
}

#[test]
fn transcoder_argument_list_with_stream_copy() {
    let p = make_plan("u", "clip.mp4", &Some("100".to_string()), &trim()).unwrap();
    let t = p.transcode.expect("a transcode step");
    assert_eq!(
        transcode_args(&t),
        vec![
            "-i".to_string(),
            "clip.webm".to_string(),
            "clip.mp4".to_string(),
            "".to_string(),
            "-c=copy".to_string(),
            "-y".to_string(),
        ]
    );
}
