//! The records an export's data files decode into, and the versioned parser
//! front door. Reading and JSON-decoding the files is the surrounding
//! application's business; the rules of the records — path sanitizing,
//! media-kind checks, emoji association — are verified here and in the
//! version modules.

pub mod parser_v0;

use vstd::prelude::*;
use crate::time::DateTime;

verus! {

/// How many export-structure versions the parsers understand.
pub const PARSER_COUNT: u64 = 1;

/// One posted moment of the export: two camera shots with their metadata.
#[derive(Debug)]
pub struct BerealMomentRecord {
    pub front_camera_path: String,
    pub back_camera_path: String,
    pub caption: Option<String>,
    pub naive_time_taken: DateTime,
    pub late: bool,
    pub song: Option<BerealSongData>,
    pub behind_the_scenes: Option<BerealBTSData>,
}

/// The song attached to a moment.
#[derive(Debug)]
pub enum BerealSongData {
    Spotify { spotify_song_id: String },
}

/// Behind-the-scenes media attached to a moment.
#[derive(Debug)]
pub enum BerealBTSData {
    Video { path: String },
}

/// One emoji reaction of the export.
#[derive(Debug)]
pub struct BerealRealmojiRecord {
    pub image_path: String,
    pub is_instant: bool,
    pub post_time: DateTime,
    pub emoji: String,
}

impl Clone for BerealSongData {
    fn clone(&self) -> (r: Self)
        ensures
            r == *self,
    {
        match self {
            BerealSongData::Spotify { spotify_song_id } => BerealSongData::Spotify {
                spotify_song_id: spotify_song_id.clone(),
            },
        }
    }
}

impl Clone for BerealBTSData {
    fn clone(&self) -> (r: Self)
        ensures
            r == *self,
    {
        match self {
            BerealBTSData::Video { path } => BerealBTSData::Video { path: path.clone() },
        }
    }
}

impl Clone for BerealMomentRecord {
    fn clone(&self) -> (r: Self)
        ensures
            r == *self,
    {
        BerealMomentRecord {
            front_camera_path: self.front_camera_path.clone(),
            back_camera_path: self.back_camera_path.clone(),
            caption: match &self.caption {
                Some(c) => Some(c.clone()),
                None => None,
            },
            naive_time_taken: self.naive_time_taken,
            late: self.late,
            song: match &self.song {
                Some(s) => Some(s.clone()),
                None => None,
            },
            behind_the_scenes: match &self.behind_the_scenes {
                Some(b) => Some(b.clone()),
                None => None,
            },
        }
    }
}

impl Clone for BerealRealmojiRecord {
    fn clone(&self) -> (r: Self)
        ensures
            r == *self,
    {
        BerealRealmojiRecord {
            image_path: self.image_path.clone(),
            is_instant: self.is_instant,
            post_time: self.post_time,
            emoji: self.emoji.clone(),
        }
    }
}

/// Guard for the export-structure version; the caller must not pass a version
/// at or beyond `PARSER_COUNT` (the unverified front door panics on one
/// instead, as the command line promises).
pub fn check_vesion_panic(version: u64)
    requires
        version < PARSER_COUNT,
{
}

} // verus!
