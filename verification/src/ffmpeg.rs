//! What an uploaded media file is, from what a demuxer reports of it: its
//! container's name and, for each stream, its kind, codec and picture size.
use vstd::prelude::*;
use crate::text::str_eq;

verus! {

/// The kind of a stream.
#[derive(Clone, Copy, Debug, PartialEq, Eq, Structural)]
pub enum MediaType {
    Unknown,
    Video,
    Audio,
    Data,
    Subtitle,
    Attachment,
}

/// The codec of a stream, as far as the file kinds below tell codecs apart.
#[derive(Clone, Copy, Debug, PartialEq, Eq, Structural)]
pub enum CodecId {
    Vp8,
    Vp9,
    Av1,
    Opus,
    Vorbis,
    Other,
}

/// One stream of a media file: its kind, its codec, and the picture size its
/// video decoder reports (`None` where no video decoder opens for it).
#[derive(Clone, Copy, Debug)]
pub struct StreamInfo {
    pub medium: MediaType,
    pub codec: CodecId,
    pub video_size: Option<(u32, u32)>,
}

/// A media file as the demuxer opened it: its container's name and its streams
/// in order.
#[derive(Debug)]
pub struct MediaInput {
    pub format_name: String,
    pub streams: Vec<StreamInfo>,
}

/// The picture size of the first video stream from index `i` on whose video
/// decoder opens.
pub open spec fn first_video_size(streams: Seq<StreamInfo>, i: int) -> Option<(u32, u32)>
    decreases streams.len() - i,
{
    if i < 0 || i >= streams.len() {
        None
    } else if streams[i].medium == MediaType::Video && streams[i].video_size is Some {
        streams[i].video_size
    } else {
        first_video_size(streams, i + 1)
    }
}

/// The picture size of a media file: that of its first video stream whose
/// video decoder opens.
pub fn get_dimensions_from_input(ctx: &MediaInput) -> (r: Option<(u32, u32)>)
    ensures
        r == first_video_size(ctx.streams@, 0),
{
    let mut i: usize = 0;
    while i < ctx.streams.len()
        invariant
            i <= ctx.streams@.len(),
            first_video_size(ctx.streams@, 0) == first_video_size(ctx.streams@, i as int),
        decreases ctx.streams@.len() - i,
    {
        let s = ctx.streams[i];
        if s.medium == MediaType::Video {
            if let Some(size) = s.video_size {
                return Some(size);
            }
        }
        i = i + 1;
    }
    None
}

/// A video codec of WebM.
pub open spec fn is_webm_video(c: CodecId) -> bool {
    c == CodecId::Vp8 || c == CodecId::Vp9 || c == CodecId::Av1
}

/// An audio codec of WebM.
pub open spec fn is_webm_audio(c: CodecId) -> bool {
    c == CodecId::Opus || c == CodecId::Vorbis
}

/// The extension of a media file from what the demuxer reports: a Matroska
/// file is WebM where it has exactly two streams, the first of a WebM video
/// codec and the second of a WebM audio codec, and MKV otherwise; no other
/// container is recognized.
pub open spec fn media_extension(format_name: Seq<char>, streams: Seq<StreamInfo>) -> Option<Seq<char>> {
    if format_name == "matroska,webm"@ {
        if streams.len() == 2 && is_webm_video(streams[0].codec) && is_webm_audio(streams[1].codec) {
            Some("webm"@)
        } else {
            Some("mkv"@)
        }
    } else {
        None
    }
}

/// The extension of a media file (`media_extension`).
pub fn get_extension_from_input(ctx: &MediaInput) -> (r: Option<String>)
    ensures
        match media_extension(ctx.format_name@, ctx.streams@) {
            Some(e) => r matches Some(s) && s@ == e,
            None => r is None,
        },
{
    if !str_eq(ctx.format_name.as_str(), "matroska,webm") {
        return None;
    }
    if ctx.streams.len() != 2 {
        return Some("mkv".to_owned());
    }
    let video_id = ctx.streams[0].codec;
    match video_id {
        CodecId::Vp8 | CodecId::Vp9 | CodecId::Av1 => {
            let audio_id = ctx.streams[1].codec;
            match audio_id {
                CodecId::Opus | CodecId::Vorbis => Some("webm".to_owned()),
                _ => Some("mkv".to_owned()),
            }
        },
        _ => Some("mkv".to_owned()),
    }
}

} // verus!

verus! {

/// A Matroska file is WebM exactly when it has two streams, the first coded
/// with VP8, VP9 or AV1 and the second with Opus or Vorbis; any other Matroska
/// file is MKV, and no other container has an extension.
pub proof fn lemma_media_extension_cases(format_name: Seq<char>, streams: Seq<StreamInfo>)
    ensures
        format_name == "matroska,webm"@ && streams.len() == 2
            && (streams[0].codec == CodecId::Vp8 || streams[0].codec == CodecId::Vp9 || streams[0].codec == CodecId::Av1)
            && (streams[1].codec == CodecId::Opus || streams[1].codec == CodecId::Vorbis)
            ==> media_extension(format_name, streams) == Some("webm"@),
        format_name == "matroska,webm"@ && !(streams.len() == 2
            && (streams[0].codec == CodecId::Vp8 || streams[0].codec == CodecId::Vp9 || streams[0].codec == CodecId::Av1)
            && (streams[1].codec == CodecId::Opus || streams[1].codec == CodecId::Vorbis))
            ==> media_extension(format_name, streams) == Some("mkv"@),
        format_name != "matroska,webm"@ ==> media_extension(format_name, streams) is None,
{
}

} // verus!
