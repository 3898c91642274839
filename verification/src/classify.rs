//! Classifying a file as image, video, or non-media from its path alone.
//!
//! The decision looks only at the file extension: the part of the filename
//! after the last dot, matched case-insensitively (ASCII) against fixed
//! allowlists. Files without a recognized extension are not media.

use vstd::prelude::*;

verus! {

/// What a media file is, judged from its extension at scan time.
#[derive(Clone, Copy, PartialEq, Eq, Structural, Debug)]
pub enum MediaKind {
    Image,
    Video,
}

/// ASCII lowercasing of one character; other characters are unchanged.
pub open spec fn lower_char(c: char) -> char {
    if 65 <= c as u32 && c as u32 <= 90 {
        ((c as u32) + 32) as char
    } else {
        c
    }
}

/// ASCII lowercasing of a character sequence.
pub open spec fn lower_seq(s: Seq<char>) -> Seq<char> {
    s.map_values(|c: char| lower_char(c))
}

/// The filename: the part of the path after the last `/` (the whole path if
/// it has no `/`).
pub open spec fn spec_filename_of(p: Seq<char>) -> Seq<char>
    decreases p.len(),
{
    if p.len() == 0 {
        p
    } else if p.last() == '/' {
        Seq::<char>::empty()
    } else {
        spec_filename_of(p.drop_last()).push(p.last())
    }
}

/// The extension of a filename: the part after the last dot, provided that
/// dot is not the first character; `None` when there is no such dot.
pub open spec fn spec_ext_of(name: Seq<char>) -> Option<Seq<char>>
    decreases name.len(),
{
    if name.len() <= 1 {
        None
    } else if name.last() == '.' {
        Some(Seq::<char>::empty())
    } else {
        match spec_ext_of(name.drop_last()) {
            Some(e) => Some(e.push(name.last())),
            None => None,
        }
    }
}

/// The image extension allowlist, compared after ASCII lowercasing.
pub open spec fn is_image_ext(e: Seq<char>) -> bool {
    let l = lower_seq(e);
    ||| l == "jpg"@
    ||| l == "jpeg"@
    ||| l == "png"@
    ||| l == "gif"@
    ||| l == "webp"@
    ||| l == "heic"@
    ||| l == "heif"@
    ||| l == "tiff"@
    ||| l == "bmp"@
}

/// The video extension allowlist, compared after ASCII lowercasing.
pub open spec fn is_video_ext(e: Seq<char>) -> bool {
    let l = lower_seq(e);
    ||| l == "mp4"@
    ||| l == "mkv"@
    ||| l == "mov"@
    ||| l == "avi"@
    ||| l == "webm"@
    ||| l == "m4v"@
}

/// Classification of a path: image or video by extension allowlist, `None`
/// for everything else.
pub open spec fn spec_classify(p: Seq<char>) -> Option<MediaKind> {
    match spec_ext_of(spec_filename_of(p)) {
        Some(e) => if is_image_ext(e) {
            Some(MediaKind::Image)
        } else if is_video_ext(e) {
            Some(MediaKind::Video)
        } else {
            None
        },
        None => None,
    }
}

/// A path counts as an image exactly when its extension is on the image list.
pub open spec fn spec_is_image(p: Seq<char>) -> bool {
    match spec_ext_of(spec_filename_of(p)) {
        Some(e) => is_image_ext(e),
        None => false,
    }
}

/// A path counts as a video exactly when its extension is on the video list.
pub open spec fn spec_is_video(p: Seq<char>) -> bool {
    match spec_ext_of(spec_filename_of(p)) {
        Some(e) => is_video_ext(e),
        None => false,
    }
}

/// A path is media when it is an image or a video.
pub open spec fn spec_is_media(p: Seq<char>) -> bool {
    spec_is_image(p) || spec_is_video(p)
}

/// The two allowlists share no extension, so no path is both image and video.
pub proof fn lemma_kinds_disjoint(e: Seq<char>)
    ensures
        !(is_image_ext(e) && is_video_ext(e)),
{
    reveal_strlit("jpg");
    reveal_strlit("jpeg");
    reveal_strlit("png");
    reveal_strlit("gif");
    reveal_strlit("webp");
    reveal_strlit("heic");
    reveal_strlit("heif");
    reveal_strlit("tiff");
    reveal_strlit("bmp");
    reveal_strlit("mp4");
    reveal_strlit("mkv");
    reveal_strlit("mov");
    reveal_strlit("avi");
    reveal_strlit("webm");
    reveal_strlit("m4v");
    assert("jpg"@[0] == 'j' && "jpeg"@[0] == 'j' && "png"@[0] == 'p' && "gif"@[0] == 'g'
        && "webp"@[0] == 'w' && "heic"@[0] == 'h' && "heif"@[0] == 'h' && "tiff"@[0] == 't'
        && "bmp"@[0] == 'b');
    assert("mp4"@[0] == 'm' && "mkv"@[0] == 'm' && "mov"@[0] == 'm' && "avi"@[0] == 'a'
        && "webm"@[0] == 'w' && "m4v"@[0] == 'm');
    assert("webp"@[3] == 'p' && "webm"@[3] == 'm');
}

/// Classification is total over the allowlists: a path whose extension is on
/// the image list is classified as an image, one whose extension is on the
/// video list as a video, and every other path — other extension or none —
/// is classified as no media at all.
pub proof fn lemma_classify_total(p: Seq<char>)
    ensures
        spec_is_image(p) ==> spec_classify(p) == Some(MediaKind::Image),
        spec_is_video(p) ==> spec_classify(p) == Some(MediaKind::Video),
        !spec_is_media(p) ==> spec_classify(p) is None,
        spec_is_media(p) <==> spec_classify(p) is Some,
{
    match spec_ext_of(spec_filename_of(p)) {
        Some(e) => {
            lemma_kinds_disjoint(e);
        },
        None => {},
    }
}

/// If a path's filename ends in `/` at position `k`, with no later `/`, the
/// filename is everything after position `k`.
proof fn lemma_filename_after_slash(p: Seq<char>, k: int)
    requires
        0 <= k < p.len(),
        p[k] == '/',
        forall|j: int| k < j < p.len() ==> p[j] != '/',
    ensures
        spec_filename_of(p) == p.subrange(k + 1, p.len() as int),
    decreases p.len(),
{
    if k == p.len() - 1 {
        assert(p.last() == '/');
        assert(spec_filename_of(p) =~= p.subrange(k + 1, p.len() as int));
    } else {
        assert(p.last() != '/');
        lemma_filename_after_slash(p.drop_last(), k);
        assert(spec_filename_of(p) =~= p.subrange(k + 1, p.len() as int));
    }
}

/// A path without any `/` is its own filename.
proof fn lemma_filename_no_slash(p: Seq<char>)
    requires
        forall|j: int| 0 <= j < p.len() ==> p[j] != '/',
    ensures
        spec_filename_of(p) == p,
    decreases p.len(),
{
    if p.len() > 0 {
        lemma_filename_no_slash(p.drop_last());
        assert(spec_filename_of(p) =~= p);
    }
}

/// If a filename has a dot at position `d > 0`, with no later dot, the
/// extension is everything after position `d`.
proof fn lemma_ext_after_dot(s: Seq<char>, d: int)
    requires
        1 <= d < s.len(),
        s[d] == '.',
        forall|j: int| d < j < s.len() ==> s[j] != '.',
    ensures
        spec_ext_of(s) == Some(s.subrange(d + 1, s.len() as int)),
    decreases s.len(),
{
    if d == s.len() - 1 {
        assert(s.last() == '.');
        assert(s.subrange(d + 1, s.len() as int) =~= Seq::<char>::empty());
    } else {
        assert(s.last() != '.');
        lemma_ext_after_dot(s.drop_last(), d);
        assert(spec_ext_of(s.drop_last()) == Some(
            s.drop_last().subrange(d + 1, s.len() - 1),
        ));
        assert(s.drop_last().subrange(d + 1, s.len() - 1) =~= s.subrange(d + 1, s.len() - 1));
        assert(s.subrange(d + 1, s.len() - 1).push(s.last()) =~= s.subrange(d + 1, s.len() as int));
    }
}

/// A filename with no dot after its first character has no extension.
proof fn lemma_ext_none(s: Seq<char>)
    requires
        forall|j: int| 1 <= j < s.len() ==> s[j] != '.',
    ensures
        spec_ext_of(s) is None,
    decreases s.len(),
{
    if s.len() > 1 {
        lemma_ext_none(s.drop_last());
    }
}

/// Lowercases one character, ASCII range only.
fn to_lower_char(c: char) -> (r: char)
    ensures
        r == lower_char(c),
{
    let u = c as u32;
    if 65 <= u && u <= 90 {
        ((u + 32) as u8) as char
    } else {
        c
    }
}

/// Decides whether `e` equals `lit` after ASCII lowercasing of `e`.
fn ext_matches_ci(e: &str, lit: &str) -> (r: bool)
    ensures
        r == (lower_seq(e@) == lit@),
{
    let n = e.unicode_len();
    if n != lit.unicode_len() {
        assert(lower_seq(e@).len() == e@.len());
        return false;
    }
    let mut i: usize = 0;
    while i < n
        invariant
            n == e@.len() == lit@.len(),
            0 <= i <= n,
            forall|j: int| 0 <= j < i ==> lower_seq(e@)[j] == lit@[j],
        decreases n - i,
    {
        let c = to_lower_char(e.get_char(i));
        if c != lit.get_char(i) {
            assert(lower_seq(e@)[i as int] != lit@[i as int]);
            return false;
        }
        i += 1;
    }
    assert(lower_seq(e@) =~= lit@);
    true
}

/// The filename of a path: everything after the last `/`.
pub fn filename_of(path: &str) -> (r: String)
    ensures
        r@ == spec_filename_of(path@),
{
    let n = path.unicode_len();
    let mut k: usize = n;
    while k > 0
        invariant
            0 <= k <= n,
            n == path@.len(),
            forall|j: int| k <= j < n ==> path@[j] != '/',
        decreases k,
    {
        if path.get_char(k - 1) == '/' {
            proof {
                lemma_filename_after_slash(path@, k - 1);
            }
            return path.substring_char(k, n).to_owned();
        }
        k -= 1;
    }
    proof {
        lemma_filename_no_slash(path@);
    }
    path.substring_char(0, n).to_owned()
}

/// The extension of a path: the part of its filename after the last dot,
/// `None` when the filename has no dot past its first character.
fn extension_of(path: &str) -> (r: Option<String>)
    ensures
        match r {
            Some(e) => spec_ext_of(spec_filename_of(path@)) == Some(e@),
            None => spec_ext_of(spec_filename_of(path@)) is None,
        },
{
    let name = filename_of(path);
    let n = name.as_str().unicode_len();
    let mut k: usize = n;
    while k > 1
        invariant
            1 <= k <= n || (k == n && n <= 1),
            n == name@.len(),
            name@ == spec_filename_of(path@),
            forall|j: int| k <= j < n ==> name@[j] != '.',
        decreases k,
    {
        if name.as_str().get_char(k - 1) == '.' {
            proof {
                lemma_ext_after_dot(name@, k - 1);
            }
            return Some(name.as_str().substring_char(k, n).to_owned());
        }
        k -= 1;
    }
    proof {
        lemma_ext_none(name@);
    }
    None
}

/// Classifies a path as image, video, or (`None`) no media, by its
/// case-insensitively matched file extension.
pub fn classify(path: &str) -> (r: Option<MediaKind>)
    ensures
        r == spec_classify(path@),
{
    match extension_of(path) {
        Some(e) => {
            let s = e.as_str();
            if ext_matches_ci(s, "jpg") || ext_matches_ci(s, "jpeg") || ext_matches_ci(s, "png")
                || ext_matches_ci(s, "gif") || ext_matches_ci(s, "webp") || ext_matches_ci(
                s,
                "heic",
            ) || ext_matches_ci(s, "heif") || ext_matches_ci(s, "tiff") || ext_matches_ci(
                s,
                "bmp",
            ) {
                Some(MediaKind::Image)
            } else if ext_matches_ci(s, "mp4") || ext_matches_ci(s, "mkv") || ext_matches_ci(
                s,
                "mov",
            ) || ext_matches_ci(s, "avi") || ext_matches_ci(s, "webm") || ext_matches_ci(
                s,
                "m4v",
            ) {
                Some(MediaKind::Video)
            } else {
                None
            }
        },
        None => None,
    }
}

/// Decides whether the path's extension is on the image allowlist.
pub fn is_image(path: &str) -> (r: bool)
    ensures
        r == spec_is_image(path@),
{
    match extension_of(path) {
        Some(e) => {
            let s = e.as_str();
            ext_matches_ci(s, "jpg") || ext_matches_ci(s, "jpeg") || ext_matches_ci(s, "png")
                || ext_matches_ci(s, "gif") || ext_matches_ci(s, "webp") || ext_matches_ci(
                s,
                "heic",
            ) || ext_matches_ci(s, "heif") || ext_matches_ci(s, "tiff") || ext_matches_ci(s, "bmp")
        },
        None => false,
    }
}

/// Decides whether the path's extension is on the video allowlist.
pub fn is_video(path: &str) -> (r: bool)
    ensures
        r == spec_is_video(path@),
{
    match extension_of(path) {
        Some(e) => {
            let s = e.as_str();
            ext_matches_ci(s, "mp4") || ext_matches_ci(s, "mkv") || ext_matches_ci(s, "mov")
                || ext_matches_ci(s, "avi") || ext_matches_ci(s, "webm") || ext_matches_ci(
                s,
                "m4v",
            )
        },
        None => false,
    }
}

/// Decides whether the path is a media file at all.
pub fn is_media_file(path: &str) -> (r: bool)
    ensures
        r == spec_is_media(path@),
{
    is_image(path) || is_video(path)
}

} // verus!
