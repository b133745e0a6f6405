use ruforo::ffmpeg::{get_dimensions_from_input, get_extension_from_input, CodecId, MediaInput, MediaType, StreamInfo};

fn stream(medium: MediaType, codec: CodecId, size: Option<(u32, u32)>) -> StreamInfo {
    StreamInfo { medium, codec, video_size: size }
}

#[test]
fn dimensions_of_first_decodable_video() {
    let input = MediaInput {
        format_name: "mov,mp4,m4a,3gp,3g2,mj2".to_owned(),
        streams: vec![
            stream(MediaType::Audio, CodecId::Other, None),
            stream(MediaType::Video, CodecId::Other, None),
            stream(MediaType::Video, CodecId::Vp9, Some((640, 480))),
            stream(MediaType::Video, CodecId::Vp8, Some((320, 200))),
        ],
    };
    assert_eq!(get_dimensions_from_input(&input), Some((640, 480)));
    let audio = MediaInput { format_name: "ogg".to_owned(), streams: vec![stream(MediaType::Audio, CodecId::Opus, None)] };
    assert_eq!(get_dimensions_from_input(&audio), None);
}

#[test]
fn matroska_is_webm_or_mkv() {
    let webm = MediaInput {
        format_name: "matroska,webm".to_owned(),
        streams: vec![
            stream(MediaType::Video, CodecId::Vp9, Some((1, 1))),
            stream(MediaType::Audio, CodecId::Opus, None),
        ],
    };
    assert_eq!(get_extension_from_input(&webm).as_deref(), Some("webm"));
    let h264 = MediaInput {
        format_name: "matroska,webm".to_owned(),
        streams: vec![
            stream(MediaType::Video, CodecId::Other, Some((1, 1))),
            stream(MediaType::Audio, CodecId::Opus, None),
        ],
    };
    assert_eq!(get_extension_from_input(&h264).as_deref(), Some("mkv"));
    let aac = MediaInput {
        format_name: "matroska,webm".to_owned(),
        streams: vec![
            stream(MediaType::Video, CodecId::Av1, Some((1, 1))),
            stream(MediaType::Audio, CodecId::Other, None),
        ],
    };
    assert_eq!(get_extension_from_input(&aac).as_deref(), Some("mkv"));
    let three = MediaInput {
        format_name: "matroska,webm".to_owned(),
        streams: vec![
            stream(MediaType::Video, CodecId::Vp8, Some((1, 1))),
            stream(MediaType::Audio, CodecId::Vorbis, None),
            stream(MediaType::Subtitle, CodecId::Other, None),
        ],
    };
    assert_eq!(get_extension_from_input(&three).as_deref(), Some("mkv"));
    let mp4 = MediaInput { format_name: "mov,mp4,m4a,3gp,3g2,mj2".to_owned(), streams: vec![] };
    assert_eq!(get_extension_from_input(&mp4), None);
}
