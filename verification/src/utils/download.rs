//! A downloaded video's record: where it lives and what yt-dlp reported
//! about it.
use vstd::prelude::*;

verus! {

/// All paths relevant to a single downloaded video.
#[derive(Debug, Clone)]
pub struct DownloadedVideo {
    pub id: String,
    pub title: String,
    pub thumbnail: String,
    pub duration: i32,
    pub video_path: String,
    /// Empty if no subtitles were available - non-fatal.
    pub transcript_path: String,
}

/// A text field of the metadata, empty when it was missing.
pub open spec fn text_or_empty(field: Option<String>) -> Seq<char> {
    match field {
        Some(s) => s@,
        None => Seq::<char>::empty(),
    }
}

/// The record of a downloaded video from the metadata fields yt-dlp printed
/// (each `None` when missing or of another type) and the local paths. Missing
/// texts become empty and a missing duration 0; the duration in seconds is
/// narrowed to 32 bits as the database stores it.
pub fn downloaded_video(
    id: Option<String>,
    title: Option<String>,
    thumbnail: Option<String>,
    duration: Option<i64>,
    video_path: String,
    transcript_path: String,
) -> (r: DownloadedVideo)
    ensures
        r.id@ == text_or_empty(id),
        r.title@ == text_or_empty(title),
        r.thumbnail@ == text_or_empty(thumbnail),
        r.duration == match duration {
            Some(d) => d as i32,
            None => 0i32,
        },
        r.video_path == video_path,
        r.transcript_path == transcript_path,
{
    DownloadedVideo {
        id: match id {
            Some(s) => s,
            None => String::new(),
        },
        title: match title {
            Some(s) => s,
            None => String::new(),
        },
        thumbnail: match thumbnail {
            Some(s) => s,
            None => String::new(),
        },
        duration: match duration {
            Some(d) => d as i32,
            None => 0,
        },
        video_path,
        transcript_path,
    }
}

/// The watch page of a YouTube video.
pub fn watch_url(video_id: &str) -> (r: String)
    ensures
        r@ == "https://www.youtube.com/watch?v="@ + video_id@,
{
    let mut url = "https://www.youtube.com/watch?v=".to_owned();
    url.append(video_id);
    url
}

/// The file the video is saved to, inside its data directory.
pub fn video_file_name(video_id: &str) -> (r: String)
    ensures
        r@ == video_id@ + ".mp4"@,
{
    let mut name = video_id.to_owned();
    name.append(".mp4");
    name
}

/// The file yt-dlp writes English subtitles to, inside the data directory.
pub fn transcript_file_name(video_id: &str) -> (r: String)
    ensures
        r@ == video_id@ + ".en.vtt"@,
{
    let mut name = video_id.to_owned();
    name.append(".en.vtt");
    name
}

} // verus!
