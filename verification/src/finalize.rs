//! Finalizing a complete stream: sanitized library paths, the concat list
//! for the transcoder tool, and the tool's argument lists.
//!
//! The transcoder runs outside the library; everything it is handed — file
//! names, the concat list's bytes, the argument vector — is built and
//! specified here.

use vstd::prelude::*;
use vstd::string::StrSliceExecFns;
use vstd::string::StringExecFns;
use vstd::string::StringSliceAdditionalSpecFns;

use crate::errors::StreamError;
use crate::stream::StreamRegistry;
use crate::stream::spec_ready_paths;
use crate::text::bytes_to_string;
use crate::text::copy_range;
use crate::text::is_ascii_space;
use crate::text::replace_all;
use crate::text::replace_all_bytes;

verus! {

/// ASCII code of `'`.
pub const SINGLE_QUOTE: u8 = 39;

/// A filename byte with one of the characters `/ \ : * ? " < > |` replaced
/// by an underscore.
pub open spec fn sanitize_byte(b: u8) -> u8 {
    if b == 47 || b == 92 || b == 58 || b == 42 || b == 63 || b == 34 || b == 60 || b == 62 || b
        == 124 {
        95
    } else {
        b
    }
}

/// `s` without leading ASCII whitespace.
pub open spec fn trim_start(s: Seq<u8>) -> Seq<u8>
    decreases s.len(),
{
    if s.len() > 0 && is_ascii_space(s[0]) {
        trim_start(s.subrange(1, s.len() as int))
    } else {
        s
    }
}

/// `s` without trailing ASCII whitespace.
pub open spec fn trim_end(s: Seq<u8>) -> Seq<u8>
    decreases s.len(),
{
    if s.len() > 0 && is_ascii_space(s.last()) {
        trim_end(s.drop_last())
    } else {
        s
    }
}

/// A name made safe for the file system: the unsafe punctuation replaced by
/// underscores, surrounding whitespace trimmed.
pub open spec fn spec_sanitized(s: Seq<u8>) -> Seq<u8> {
    trim_end(trim_start(s.map_values(|b: u8| sanitize_byte(b))))
}

/// Sanitize a filename's bytes.
#[verifier::loop_isolation(false)]
pub fn sanitize_bytes(v: &Vec<u8>) -> (r: Vec<u8>)
    ensures
        r@ == spec_sanitized(v@),
{
    let mut mapped: Vec<u8> = Vec::new();
    let mut i: usize = 0;
    while i < v.len()
        invariant
            0 <= i <= v@.len(),
            mapped@ == v@.subrange(0, i as int).map_values(|b: u8| sanitize_byte(b)),
        decreases v@.len() - i,
    {
        let b = v[i];
        let m: u8 = if b == 47 || b == 92 || b == 58 || b == 42 || b == 63 || b == 34 || b == 60
            || b == 62 || b == 124 {
            95
        } else {
            b
        };
        mapped.push(m);
        proof {
            assert(mapped@ =~= v@.subrange(0, i + 1).map_values(|b: u8| sanitize_byte(b)));
        }
        i = i + 1;
    }
    proof {
        assert(v@.subrange(0, v@.len() as int) =~= v@);
    }
    let mut start: usize = 0;
    proof {
        assert(mapped@.subrange(0, mapped@.len() as int) =~= mapped@);
    }
    while start < mapped.len() && is_space_byte(mapped[start])
        invariant
            0 <= start <= mapped@.len(),
            trim_start(mapped@) == trim_start(mapped@.subrange(start as int, mapped@.len() as int)),
        decreases mapped@.len() - start,
    {
        proof {
            let tail = mapped@.subrange(start as int, mapped@.len() as int);
            assert(tail.subrange(1, tail.len() as int) =~= mapped@.subrange(
                start + 1,
                mapped@.len() as int,
            ));
        }
        start = start + 1;
    }
    let mut end: usize = mapped.len();
    proof {
        let tail = mapped@.subrange(start as int, mapped@.len() as int);
        assert(trim_start(mapped@) == tail);
        assert(tail =~= mapped@.subrange(start as int, end as int));
    }
    while end > start && is_space_byte(mapped[end - 1])
        invariant
            start <= end <= mapped@.len(),
            trim_end(trim_start(mapped@)) == trim_end(
                mapped@.subrange(start as int, end as int),
            ),
        decreases end,
    {
        proof {
            let cur = mapped@.subrange(start as int, end as int);
            assert(cur.drop_last() =~= mapped@.subrange(start as int, end - 1));
        }
        end = end - 1;
    }
    proof {
        let cur = mapped@.subrange(start as int, end as int);
        if cur.len() > 0 {
            assert(!is_ascii_space(cur.last()));
        }
        assert(trim_end(cur) == cur);
    }
    copy_range(&mapped, start, end)
}

/// Whether the byte is ASCII whitespace.
fn is_space_byte(b: u8) -> (r: bool)
    ensures
        r == is_ascii_space(b),
{
    b == 32 || b == 9 || b == 10 || b == 13
}

/// Sanitization keeps ASCII bytes ASCII.
pub proof fn lemma_sanitized_ascii(s: Seq<u8>)
    requires
        forall|i: int| 0 <= i < s.len() ==> s[i] < 128,
    ensures
        forall|i: int|
            0 <= i < spec_sanitized(s).len() ==> #[trigger] spec_sanitized(s)[i] < 128,
{
    let mapped = s.map_values(|b: u8| sanitize_byte(b));
    assert(forall|i: int| 0 <= i < mapped.len() ==> #[trigger] mapped[i] < 128);
    lemma_trim_start_ascii(mapped);
    lemma_trim_end_ascii(trim_start(mapped));
}

/// Trimming from the front keeps an all-ASCII string all ASCII.
proof fn lemma_trim_start_ascii(s: Seq<u8>)
    requires
        forall|i: int| 0 <= i < s.len() ==> s[i] < 128,
    ensures
        forall|i: int| 0 <= i < trim_start(s).len() ==> #[trigger] trim_start(s)[i] < 128,
    decreases s.len(),
{
    if s.len() > 0 && is_ascii_space(s[0]) {
        let tail = s.subrange(1, s.len() as int);
        assert forall|i: int| 0 <= i < tail.len() implies #[trigger] tail[i] < 128 by {
            assert(tail[i] == s[i + 1]);
        }
        lemma_trim_start_ascii(tail);
        assert forall|i: int| 0 <= i < trim_start(s).len() implies #[trigger] trim_start(s)[i]
            < 128 by {
            assert(trim_start(s) == trim_start(tail));
            assert(trim_start(tail)[i] < 128);
        }
    }
}

/// Trimming from the back keeps an all-ASCII string all ASCII.
proof fn lemma_trim_end_ascii(s: Seq<u8>)
    requires
        forall|i: int| 0 <= i < s.len() ==> s[i] < 128,
    ensures
        forall|i: int| 0 <= i < trim_end(s).len() ==> #[trigger] trim_end(s)[i] < 128,
    decreases s.len(),
{
    if s.len() > 0 && is_ascii_space(s.last()) {
        let head = s.drop_last();
        assert forall|i: int| 0 <= i < head.len() implies #[trigger] head[i] < 128 by {
            assert(head[i] == s[i]);
        }
        lemma_trim_end_ascii(head);
        assert forall|i: int| 0 <= i < trim_end(s).len() implies #[trigger] trim_end(s)[i]
            < 128 by {
            assert(trim_end(s) == trim_end(head));
            assert(trim_end(head)[i] < 128);
        }
    }
}

/// Sanitize a filename component.  For ASCII names the result holds exactly
/// the sanitized characters.
pub fn sanitize_filename(name: &str) -> (r: String)
    ensures
        name.is_ascii() ==> (r@.len() == spec_sanitized(name.spec_bytes()).len() && forall|i: int|
            0 <= i < r@.len() ==> r@[i] == (spec_sanitized(name.spec_bytes())[i] as char)),
{
    let bytes = name.as_bytes_vec();
    let clean = sanitize_bytes(&bytes);
    proof {
        if vstd::string::is_ascii(name) {
            vstd::string::is_ascii_spec_bytes(name);
            lemma_sanitized_ascii(name.spec_bytes());
        }
    }
    bytes_to_string(&clean)
}

// ---------------------------------------------------------------------------
// The concat list handed to the transcoder tool.
// ---------------------------------------------------------------------------

/// The escape the concat format wants for a single quote inside a path:
/// close the quoted string, emit an escaped quote, reopen.
pub open spec fn escaped_quote() -> Seq<u8> {
    "'\\''".spec_bytes()
}

/// One line of the concat list: `file '<path>'` with quotes escaped.
pub open spec fn spec_concat_line(p: Seq<u8>) -> Seq<u8> {
    "file '".spec_bytes() + replace_all(p, seq![SINGLE_QUOTE], escaped_quote())
        + "'\n".spec_bytes()
}

/// The whole concat list: one line per path, in order.
pub open spec fn spec_concat_content(paths: Seq<Seq<u8>>) -> Seq<u8>
    decreases paths.len(),
{
    if paths.len() == 0 {
        Seq::empty()
    } else {
        spec_concat_content(paths.drop_last()) + spec_concat_line(paths.last())
    }
}

/// Build the concat list for the given chunk paths.
#[verifier::loop_isolation(false)]
pub fn concat_list_bytes(paths: &Vec<Vec<u8>>) -> (r: Vec<u8>)
    ensures
        r@ == spec_concat_content(paths.deep_view()),
{
    let prefix = concat_line_prefix();
    let suffix = concat_line_suffix();
    let escape = escaped_quote_exec();
    let mut quote: Vec<u8> = Vec::new();
    quote.push(SINGLE_QUOTE);
    proof {
        assert(quote@ =~= seq![SINGLE_QUOTE]);
    }
    let mut out: Vec<u8> = Vec::new();
    let mut i: usize = 0;
    while i < paths.len()
        invariant
            0 <= i <= paths@.len(),
            out@ == spec_concat_content(paths.deep_view().subrange(0, i as int)),
            prefix@ == "file '".spec_bytes(),
            suffix@ == "'\n".spec_bytes(),
            escape@ == escaped_quote(),
            quote@ == seq![SINGLE_QUOTE],
        decreases paths@.len() - i,
    {
        let ghost before = out@;
        out.extend_from_slice(prefix.as_slice());
        let escaped = replace_all_bytes(&paths[i], &quote, &escape);
        out.extend_from_slice(escaped.as_slice());
        out.extend_from_slice(suffix.as_slice());
        proof {
            let dv = paths.deep_view();
            assert(dv.subrange(0, i + 1).drop_last() =~= dv.subrange(0, i as int));
            assert(dv.subrange(0, i + 1).last() == dv[i as int]);
            assert(dv[i as int] == paths@[i as int]@);
            assert(out@ =~= before + spec_concat_line(dv[i as int]));
        }
        i = i + 1;
    }
    proof {
        assert(paths.deep_view().subrange(0, paths@.len() as int) =~= paths.deep_view());
    }
    out
}

fn concat_line_prefix() -> (r: Vec<u8>)
    ensures
        r@ == "file '".spec_bytes(),
{
    "file '".as_bytes_vec()
}

fn concat_line_suffix() -> (r: Vec<u8>)
    ensures
        r@ == "'\n".spec_bytes(),
{
    "'\n".as_bytes_vec()
}

fn escaped_quote_exec() -> (r: Vec<u8>)
    ensures
        r@ == escaped_quote(),
{
    "'\\''".as_bytes_vec()
}

// ---------------------------------------------------------------------------
// Transcoder tool invocations.
// ---------------------------------------------------------------------------

/// Arguments to transcode one input file to a lossless output:
/// `-y -i <input> -c:a flac -compression_level 5 <output>`.
pub fn transcode_args(input: &str, output: &str) -> (r: Vec<String>)
    ensures
        r@.len() == 8,
        r@[0]@ == "-y"@,
        r@[1]@ == "-i"@,
        r@[2]@ == input@,
        r@[3]@ == "-c:a"@,
        r@[4]@ == "flac"@,
        r@[5]@ == "-compression_level"@,
        r@[6]@ == "5"@,
        r@[7]@ == output@,
{
    let mut v: Vec<String> = Vec::new();
    v.push("-y".to_owned());
    v.push("-i".to_owned());
    v.push(input.to_owned());
    v.push("-c:a".to_owned());
    v.push("flac".to_owned());
    v.push("-compression_level".to_owned());
    v.push("5".to_owned());
    v.push(output.to_owned());
    v
}

/// Arguments to join the files named by a concat list into one lossless
/// output: `-y -f concat -safe 0 -i <list> -c:a flac -compression_level 5
/// <output>`.
pub fn concat_transcode_args(list_path: &str, output: &str) -> (r: Vec<String>)
    ensures
        r@.len() == 12,
        r@[0]@ == "-y"@,
        r@[1]@ == "-f"@,
        r@[2]@ == "concat"@,
        r@[3]@ == "-safe"@,
        r@[4]@ == "0"@,
        r@[5]@ == "-i"@,
        r@[6]@ == list_path@,
        r@[7]@ == "-c:a"@,
        r@[8]@ == "flac"@,
        r@[9]@ == "-compression_level"@,
        r@[10]@ == "5"@,
        r@[11]@ == output@,
{
    let mut v: Vec<String> = Vec::new();
    v.push("-y".to_owned());
    v.push("-f".to_owned());
    v.push("concat".to_owned());
    v.push("-safe".to_owned());
    v.push("0".to_owned());
    v.push("-i".to_owned());
    v.push(list_path.to_owned());
    v.push("-c:a".to_owned());
    v.push("flac".to_owned());
    v.push("-compression_level".to_owned());
    v.push("5".to_owned());
    v.push(output.to_owned());
    v
}

// ---------------------------------------------------------------------------
// Output paths.
// ---------------------------------------------------------------------------

/// The library-relative path `Artist/Album/Track.flac` with each component
/// sanitized.  For ASCII metadata the result holds exactly these characters.
pub fn music_rel_path(track_name: &str, artist_name: &str, album_name: &str) -> (r: String)
    ensures
        (track_name.is_ascii() && artist_name.is_ascii() && album_name.is_ascii()) ==> (r@
            == sanitized_chars(artist_name.spec_bytes()) + "/"@ + sanitized_chars(
            album_name.spec_bytes(),
        ) + "/"@ + sanitized_chars(track_name.spec_bytes()) + ".flac"@),
{
    let mut s = sanitize_filename(artist_name);
    s.append("/");
    let album = sanitize_filename(album_name);
    s.append(album.as_str());
    s.append("/");
    let track = sanitize_filename(track_name);
    s.append(track.as_str());
    s.append(".flac");
    proof {
        if vstd::string::is_ascii(track_name) && vstd::string::is_ascii(artist_name)
            && vstd::string::is_ascii(album_name) {
            assert(s@ =~= sanitized_chars(artist_name.spec_bytes()) + "/"@ + sanitized_chars(
                album_name.spec_bytes(),
            ) + "/"@ + sanitized_chars(track_name.spec_bytes()) + ".flac"@);
        }
    }
    s
}

/// The sanitized bytes of a name, read as characters (meaningful for ASCII
/// names).
pub open spec fn sanitized_chars(s: Seq<u8>) -> Seq<char> {
    spec_sanitized(s).map_values(|b: u8| b as char)
}

/// The flat library file name `Artist - Track.flac`, the older layout the
/// cache lookup still honours.
pub fn flat_music_file_name(track_name: &str, artist_name: &str) -> (r: String)
    ensures
        (track_name.is_ascii() && artist_name.is_ascii()) ==> (r@ == sanitized_chars(
            artist_name.spec_bytes(),
        ) + " - "@ + sanitized_chars(track_name.spec_bytes()) + ".flac"@),
{
    let mut s = sanitize_filename(artist_name);
    s.append(" - ");
    let track = sanitize_filename(track_name);
    s.append(track.as_str());
    s.append(".flac");
    proof {
        if vstd::string::is_ascii(track_name) && vstd::string::is_ascii(artist_name) {
            assert(s@ =~= sanitized_chars(artist_name.spec_bytes()) + " - "@ + sanitized_chars(
                track_name.spec_bytes(),
            ) + ".flac"@);
        }
    }
    s
}

/// The fallback file name `{track_id}.flac` used when the track's metadata
/// is incomplete.
pub fn cache_file_name(track_id: &str) -> (r: String)
    ensures
        r@ == track_id@ + ".flac"@,
{
    let mut s = track_id.to_owned();
    s.append(".flac");
    s
}

/// The concat list's file name, `{track_id}_concat.txt`.
pub fn concat_list_name(track_id: &str) -> (r: String)
    ensures
        r@ == track_id@ + "_concat.txt"@,
{
    let mut s = track_id.to_owned();
    s.append("_concat.txt");
    s
}

/// Everything the caller needs to finalize a complete stream: which chunk
/// files to join, the concat list to write (several chunks only), and where
/// the result goes.
#[derive(Debug, Clone, PartialEq, Eq)]
pub struct FinalizePlan {
    /// Paths of the ready chunk files, in chunk order.
    pub input_paths: Vec<String>,
    /// Whether the stream has exactly one chunk (no concat list needed).
    pub single_chunk: bool,
    /// Name of the concat list file to write (several chunks only).
    pub concat_list_name: String,
    /// Bytes of the concat list (several chunks only).
    pub concat_list_content: Vec<u8>,
    /// Where the finished file goes: a library-relative `Artist/Album/
    /// Track.flac` path when the metadata is known, else `{id}.flac`.
    pub output_rel_path: String,
    /// Whether `output_rel_path` is a library path (metadata known) rather
    /// than a cache file name.
    pub in_music_library: bool,
}

impl StreamRegistry {
    /// Decide how to finalize the track's stream.  The stream must be
    /// complete; the caller runs the transcoder tool over the returned plan
    /// and then cleans the stream up.
    pub fn finalize_plan(&self, track_id: &str) -> (r: Result<FinalizePlan, StreamError>)
        requires
            self.wf(),
        ensures
            match r {
                Result::Ok(plan) => {
                    &&& self.spec_has(track_id@)
                    &&& self.spec_stream(track_id@).is_complete
                    &&& plan.input_paths.deep_view() == spec_ready_paths(
                        self.spec_stream(track_id@).chunks@,
                    )
                    &&& plan.input_paths@.len() >= 1
                    &&& plan.single_chunk == (plan.input_paths@.len() == 1)
                    &&& plan.concat_list_name@ == track_id@ + "_concat.txt"@
                    &&& (!plan.single_chunk ==> plan.concat_list_content@ == spec_concat_content(
                        spec_ready_paths(self.spec_stream(track_id@).chunks@).map_values(
                            |p: Seq<char>| vstd::utf8::encode_utf8(p),
                        ),
                    ))
                    &&& plan.in_music_library == (self.spec_stream(track_id@).track_name is Some
                        && self.spec_stream(track_id@).artist_name is Some && self.spec_stream(
                        track_id@,
                    ).album_name is Some)
                    &&& (!plan.in_music_library ==> plan.output_rel_path@ == track_id@
                        + ".flac"@)
                    &&& ((plan.in_music_library && vstd::utf8::is_ascii_chars(
                        self.spec_stream(track_id@).track_name->0@,
                    ) && vstd::utf8::is_ascii_chars(self.spec_stream(track_id@).artist_name->0@)
                        && vstd::utf8::is_ascii_chars(self.spec_stream(track_id@).album_name->0@))
                        ==> plan.output_rel_path@ == sanitized_chars(
                        vstd::utf8::encode_utf8(self.spec_stream(track_id@).artist_name->0@),
                    ) + "/"@ + sanitized_chars(
                        vstd::utf8::encode_utf8(self.spec_stream(track_id@).album_name->0@),
                    ) + "/"@ + sanitized_chars(
                        vstd::utf8::encode_utf8(self.spec_stream(track_id@).track_name->0@),
                    ) + ".flac"@)
                },
                Result::Err(e) => {
                    ||| (e == StreamError::NoActiveStream && !self.spec_has(track_id@))
                    ||| (e == StreamError::NotComplete && self.spec_has(track_id@)
                        && !self.spec_stream(track_id@).is_complete)
                    ||| (e == StreamError::NoChunks && self.spec_has(track_id@)
                        && self.spec_stream(track_id@).is_complete && spec_ready_paths(
                        self.spec_stream(track_id@).chunks@,
                    ).len() == 0)
                },
            },
    {
        let found = self.find_index(track_id);
        match found {
            Option::Some(i) => {
                proof {
                    crate::stream::lemma_find_from_some(self.streams@, track_id@, 0, i as int);
                }
                let st = &self.streams[i];
                if !st.is_complete {
                    return Result::Err(StreamError::NotComplete);
                }
                let input_paths = st.ready_paths();
                if input_paths.len() == 0 {
                    return Result::Err(StreamError::NoChunks);
                }
                let single_chunk = input_paths.len() == 1;
                let mut path_bytes: Vec<Vec<u8>> = Vec::new();
                let mut k: usize = 0;
                while k < input_paths.len()
                    invariant
                        0 <= k <= input_paths@.len(),
                        path_bytes@.len() == k,
                        forall|m: int|
                            0 <= m < k ==> #[trigger] path_bytes.deep_view()[m]
                                == vstd::utf8::encode_utf8(input_paths.deep_view()[m]),
                    decreases input_paths@.len() - k,
                {
                    let ghost dv_before = path_bytes.deep_view();
                    let b = input_paths[k].as_str().as_bytes_vec();
                    path_bytes.push(b);
                    proof {
                        assert forall|m: int|
                            0 <= m < k + 1 implies #[trigger] path_bytes.deep_view()[m]
                            == vstd::utf8::encode_utf8(input_paths.deep_view()[m]) by {
                            if m < k {
                                assert(dv_before[m] == vstd::utf8::encode_utf8(
                                    input_paths.deep_view()[m],
                                ));
                                assert(path_bytes.deep_view()[m] == path_bytes@[m].deep_view());
                                assert(dv_before[m] == path_bytes@[m].deep_view());
                            } else {
                                assert(path_bytes.deep_view()[m] == path_bytes@[m].deep_view());
                                assert(path_bytes@[m].deep_view() =~= path_bytes@[m]@);
                                assert(input_paths.deep_view()[m] == input_paths@[m]@);
                            }
                        }
                    }
                    k = k + 1;
                }
                let concat_list_content = if single_chunk {
                    Vec::new()
                } else {
                    proof {
                        assert(path_bytes.deep_view() =~= input_paths.deep_view().map_values(
                            |p: Seq<char>| vstd::utf8::encode_utf8(p),
                        ));
                    }
                    concat_list_bytes(&path_bytes)
                };
                let output_rel_path = match (&st.track_name, &st.artist_name, &st.album_name) {
                    (Option::Some(t), Option::Some(a), Option::Some(al)) => music_rel_path(
                        t.as_str(),
                        a.as_str(),
                        al.as_str(),
                    ),
                    _ => cache_file_name(track_id),
                };
                let in_music_library = match (&st.track_name, &st.artist_name, &st.album_name) {
                    (Option::Some(_), Option::Some(_), Option::Some(_)) => true,
                    _ => false,
                };
                Result::Ok(
                    FinalizePlan {
                        input_paths,
                        single_chunk,
                        concat_list_name: concat_list_name(track_id),
                        concat_list_content,
                        output_rel_path,
                        in_music_library,
                    },
                )
            },
            Option::None => Result::Err(StreamError::NoActiveStream),
        }
    }
}

} // verus!
