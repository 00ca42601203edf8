//! Data carried between the streaming gateways, the local library and the
//! UI, plus the small pieces of logic on it: the credential store, the
//! scanner's bookkeeping, and reading a track id out of a gateway URL.
//!
//! The HTTP calls and JSON handling around these types happen outside the
//! library and exchange plain values with it.

use vstd::prelude::*;
use vstd::string::StrSliceExecFns;
use vstd::string::StringExecFns;
use vstd::string::StringSliceAdditionalSpecFns;

use crate::text::all_ascii_digits;
use crate::text::copy_range;
use crate::text::dec_value;
use crate::text::find_at;
use crate::text::find_sub;
use crate::text::lemma_find_at_some;
use crate::text::parse_u64_dec;
use crate::text::str_eq;

verus! {

/// API credentials for the track-metadata service.
#[derive(Debug, Clone, PartialEq, Eq)]
pub struct SpotifyCredentials {
    /// OAuth client id.
    pub client_id: String,
    /// OAuth client secret.
    pub client_secret: String,
}

/// The process-wide slot the credentials live in.  The embedding
/// application holds one instance behind its lock.
pub struct CredentialStore {
    /// The installed credentials, if any.
    pub creds: Option<SpotifyCredentials>,
}

impl CredentialStore {
    /// An empty store.
    pub fn new() -> (s: CredentialStore)
        ensures
            s.creds is None,
    {
        CredentialStore { creds: Option::None }
    }

    /// Install (or clear) the global credentials.
    pub fn set_global(&mut self, creds: Option<SpotifyCredentials>)
        ensures
            final(self).creds == creds,
    {
        self.creds = creds;
    }

    /// The installed credentials, if any.
    pub fn get_global(&self) -> (r: Option<SpotifyCredentials>)
        ensures
            (r is Some) == (self.creds is Some),
            r matches Option::Some(c) ==> (self.creds matches Option::Some(c0) && c.client_id@
                == c0.client_id@ && c.client_secret@ == c0.client_secret@),
    {
        match &self.creds {
            Option::Some(c) => Option::Some(
                SpotifyCredentials {
                    client_id: c.client_id.clone(),
                    client_secret: c.client_secret.clone(),
                },
            ),
            Option::None => Option::None,
        }
    }

    /// Whether credentials are installed.
    pub fn has_credentials(&self) -> (r: bool)
        ensures
            r == (self.creds is Some),
    {
        self.creds.is_some()
    }
}

/// Per-service links to the same recording.
#[derive(Debug, Clone, PartialEq, Eq)]
pub struct StreamingURLs {
    pub tidal_url: Option<String>,
    pub amazon_url: Option<String>,
    pub qobuz_url: Option<String>,
    pub deezer_url: Option<String>,
    pub youtube_url: Option<String>,
}

/// A track as the metadata service describes it.
#[derive(Debug, Clone, PartialEq, Eq)]
pub struct SpotifyTrack {
    pub id: String,
    pub name: String,
    pub artists: Vec<String>,
    pub album: String,
    pub album_id: String,
    pub duration_ms: u64,
    pub track_number: u32,
    pub disc_number: u32,
    pub isrc: Option<String>,
    pub cover_url: Option<String>,
    pub release_date: Option<String>,
    pub is_explicit: bool,
}

/// An album as the metadata service describes it.
#[derive(Debug, Clone, PartialEq, Eq)]
pub struct SpotifyAlbum {
    pub id: String,
    pub name: String,
    pub artists: Vec<String>,
    pub cover_url: Option<String>,
    pub release_date: Option<String>,
    pub total_tracks: u32,
    pub tracks: Vec<SpotifyTrack>,
}

/// Tracks and albums a search returned.
#[derive(Debug, Clone, PartialEq, Eq)]
pub struct SpotifySearchResult {
    pub tracks: Vec<SpotifyTrack>,
    pub albums: Vec<SpotifyAlbum>,
}

/// A playable stream a gateway offered.
#[derive(Debug, Clone, PartialEq, Eq)]
pub struct StreamInfo {
    /// Direct URL of the stream.
    pub url: String,
    /// Quality tier of the stream.
    pub quality: StreamQuality,
    /// Container format.
    pub format: String,
    /// Declared sample rate, if known.
    pub sample_rate: Option<u32>,
    /// Declared bit depth, if known.
    pub bit_depth: Option<u32>,
    /// Which service offered it.
    pub source: StreamSource,
}

/// Quality tiers of the gateways.
#[derive(Debug, Clone, Copy, PartialEq, Eq, Structural)]
pub enum StreamQuality {
    /// Lossy, CD-rate.
    Standard,
    /// Lossless at CD rate.
    Lossless,
    /// Lossless above CD rate.
    HiRes,
    /// Lossless at the highest rates the service offers.
    HiResLossless,
}

/// The services streams can come from.
#[derive(Debug, Clone, Copy, PartialEq, Eq, Structural)]
pub enum StreamSource {
    Tidal,
    Qobuz,
    Amazon,
    Deezer,
}

/// Which sources to try, and in what order.
#[derive(Debug, Clone, PartialEq, Eq)]
pub struct StreamingPreferences {
    /// Prefer rates above CD quality when available.
    pub prefer_hires: bool,
    /// Service names in the order to try them.
    pub service_order: Vec<String>,
}

/// Metadata the UI hands over when starting a stream.
#[derive(Debug, Clone, PartialEq, Eq)]
pub struct TrackMetadata {
    pub name: String,
    pub artist: String,
    pub album: String,
    pub duration_ms: Option<u64>,
}

/// A built-in smart playlist's description.
#[derive(Debug, Clone, PartialEq, Eq)]
pub struct SmartPlaylist {
    pub id: String,
    pub name: String,
    pub icon: String,
    pub track_count: i64,
}

/// Sizes of the stream cache and the music library, in bytes.
#[derive(Debug, Clone, Copy, PartialEq, Eq, Structural)]
pub struct CacheInfo {
    pub cache_size: u64,
    pub music_size: u64,
}

/// An artist row of the library index.
#[derive(Debug, Clone, PartialEq, Eq)]
pub struct Artist {
    pub id: i64,
    pub name: String,
    pub album_count: i32,
    pub track_count: i32,
}

/// A watched library folder.
#[derive(Debug, Clone, PartialEq, Eq)]
pub struct LibraryFolder {
    pub id: i64,
    pub path: String,
    pub enabled: bool,
    pub last_scanned: Option<String>,
}

/// The scanner's bookkeeping; walking folders and reading tags happen
/// outside the library.
pub struct LibraryScanner {
    /// Whether a scan is in progress.
    pub scanning: bool,
}

impl LibraryScanner {
    /// A scanner at rest.
    pub fn new() -> (s: LibraryScanner)
        ensures
            !s.scanning,
    {
        LibraryScanner { scanning: false }
    }

    /// Whether a scan is in progress.
    pub fn is_scanning(&self) -> (r: bool)
        ensures
            r == self.scanning,
    {
        self.scanning
    }
}

/// Whether a file extension (lower case) is one the scanner reads.
pub fn is_supported_extension(ext: &str) -> (r: bool)
    ensures
        r == (ext@ == "flac"@ || ext@ == "wav"@ || ext@ == "alac"@ || ext@ == "m4a"@ || ext@
            == "aiff"@ || ext@ == "aif"@ || ext@ == "mp3"@ || ext@ == "ogg"@ || ext@ == "opus"@),
{
    str_eq(ext, "flac") || str_eq(ext, "wav") || str_eq(ext, "alac") || str_eq(ext, "m4a")
        || str_eq(ext, "aiff") || str_eq(ext, "aif") || str_eq(ext, "mp3") || str_eq(ext, "ogg")
        || str_eq(ext, "opus")
}

// ---------------------------------------------------------------------------
// Reading the track id out of a gateway URL.
// ---------------------------------------------------------------------------

/// The `/track/` path-segment marker.
pub open spec fn track_marker() -> Seq<u8> {
    "/track/".spec_bytes()
}

/// End of the id in the URL: the first `/` or `?` at or after `from`, or
/// the end of the URL.
pub open spec fn id_end(s: Seq<u8>, from: int) -> int
    decreases s.len() + 1 - from,
{
    if from < 0 || from >= s.len() {
        s.len() as int
    } else if s[from] == 47 || s[from] == 63 {
        from
    } else {
        id_end(s, from + 1)
    }
}

/// The id bytes a gateway URL carries after its first `/track/` segment,
/// up to the next `/`, `?` or the end.
pub open spec fn spec_track_id_bytes(url: Seq<u8>) -> Option<Seq<u8>> {
    match find_at(url, track_marker(), 0) {
        Option::Some(i) => Option::Some(
            url.subrange(i + track_marker().len(), id_end(url, i + track_marker().len())),
        ),
        Option::None => Option::None,
    }
}

/// Read the numeric track id out of a gateway URL: the decimal number after
/// the first `/track/` path segment.  Fails when the URL has no `/track/`
/// segment, or what follows is not a plain decimal number fitting an `i64`.
pub fn extract_tidal_track_id(url: &str) -> (r: Result<i64, String>)
    ensures
        match r {
            Result::Ok(id) => {
                &&& spec_track_id_bytes(url.spec_bytes()) matches Option::Some(d)
                &&& d.len() >= 1
                &&& all_ascii_digits(d)
                &&& id == dec_value(d)
                &&& dec_value(d) <= i64::MAX
            },
            Result::Err(_) => {
                ||| spec_track_id_bytes(url.spec_bytes()) is None
                ||| (spec_track_id_bytes(url.spec_bytes()) matches Option::Some(d) && (d.len()
                    == 0 || !all_ascii_digits(d) || dec_value(d) > i64::MAX))
            },
        },
{
    let bytes = url.as_bytes_vec();
    let marker = track_marker_exec();
    let found = find_sub(&bytes, &marker, 0);
    match found {
        Option::None => Result::Err("Could not extract Tidal track ID from URL".to_owned()),
        Option::Some(i) => {
            let hn: usize = bytes.len();
            proof {
                assert(hn == bytes@.len());
                lemma_find_at_some(bytes@, marker@, 0, i as int);
            }
            let start: usize = i + marker.len();
            let mut end: usize = start;
            while end < bytes.len() && bytes[end] != 47 && bytes[end] != 63
                invariant
                    start <= end <= bytes@.len(),
                    id_end(bytes@, start as int) == id_end(bytes@, end as int),
                decreases bytes@.len() - end,
            {
                end = end + 1;
            }
            proof {
                assert(id_end(bytes@, end as int) == end);
            }
            let digits = copy_range(&bytes, start, end);
            match parse_u64_dec(&digits) {
                Option::Some(v) => {
                    if v <= i64::MAX as u64 {
                        Result::Ok(v as i64)
                    } else {
                        Result::Err("Invalid Tidal track ID".to_owned())
                    }
                },
                Option::None => Result::Err("Invalid Tidal track ID".to_owned()),
            }
        },
    }
}

fn track_marker_exec() -> (r: Vec<u8>)
    ensures
        r@ == track_marker(),
        r@.len() == 7,
{
    let s = "/track/";
    proof {
        reveal_strlit("/track/");
        assert(s.is_ascii());
        vstd::string::is_ascii_spec_bytes(s);
    }
    s.as_bytes_vec()
}

} // verus!
