//! The desktop pet: its personality, its photo settings and animation frames.
use crate::database::settings_repo;
use crate::database::db::opt_string_view;
use crate::database::settings_repo::settings_error;
use crate::pet_avatar::PetStyle;
use crate::text::{ascii_lower, spec_ascii_lowercase, spec_dec_nat, spec_parse_int, str_eq};
use vstd::prelude::*;

verus! {

pub const PET_ENABLED_KEY: &'static str = "petEnabled";
pub const PET_PHOTO_PATH_KEY: &'static str = "petPhotoPath";
pub const PET_PHOTO_ENABLED_KEY: &'static str = "petPhotoEnabled";
pub const PET_PHOTO_SOURCE_PATH_KEY: &'static str = "petPhotoSourcePath";
pub const PET_STYLE_KEY: &'static str = "petStyle";
pub const PET_TOLERANCE_KEY: &'static str = "petTolerance";
pub const PET_PERSONALITY_KEY: &'static str = "petPersonality";
pub const PET_SEGMENTATION_KEY: &'static str = "petSegmentation";
pub const PET_FRAMES_KEY: &'static str = "petFrames";
pub const PET_FRAME_MS_KEY: &'static str = "petFrameMs";
pub const PET_SIZE_KEY: &'static str = "petSize";
pub const PET_OPACITY_KEY: &'static str = "petOpacity";

/// Default cut-out tolerance (largest channel difference between neighbours that
/// still counts as the same background).
pub const DEFAULT_TOLERANCE: u8 = 30;
pub const PET_SIZE_MIN: u32 = 64;
pub const PET_SIZE_MAX: u32 = 192;
pub const PET_SIZE_DEFAULT: u32 = 96;
pub const PET_OPACITY_DEFAULT: u8 = 100;
pub const PET_FRAME_MS_DEFAULT: u64 = 300;
/// Extra animation frames allowed besides the main picture.
pub const MAX_EXTRA_FRAMES: usize = 7;

/// One animation frame: the uploaded source and the processed sprite.
#[derive(Debug, Clone)]
pub struct FrameEntry {
    pub source: String,
    pub sprite: String,
}

pub open spec fn spec_clamp_u32(v: u32, min: u32, max: u32, fallback: u32) -> u32 {
    if v == 0 { fallback } else if v < min { min } else if v > max { max } else { v }
}

/// A display value brought into `min..=max`; 0 (unset) gives the fallback.
pub fn clamp_u32(v: u32, min: u32, max: u32, fallback: u32) -> (r: u32)
    requires
        min <= max,
    ensures
        r == spec_clamp_u32(v, min, max, fallback),
{
    if v == 0 {
        return fallback;
    }
    if v < min { min } else if v > max { max } else { v }
}

/// The pet's personality: the tone of its bubbles and of the AI assistant.
#[derive(Debug, Clone, Copy, PartialEq, Eq, Structural)]
pub enum PetPersonality {
    Gentle,
    Motivator,
    Sarcastic,
    Cool,
}

impl PetPersonality {
    pub open spec fn spec_name(self) -> Seq<char> {
        match self {
            PetPersonality::Gentle => "gentle"@,
            PetPersonality::Motivator => "motivator"@,
            PetPersonality::Sarcastic => "sarcastic"@,
            PetPersonality::Cool => "cool"@,
        }
    }

    pub open spec fn spec_from_name(s: Seq<char>) -> Option<PetPersonality> {
        if s == "gentle"@ {
            Some(PetPersonality::Gentle)
        } else if s == "motivator"@ {
            Some(PetPersonality::Motivator)
        } else if s == "sarcastic"@ {
            Some(PetPersonality::Sarcastic)
        } else if s == "cool"@ {
            Some(PetPersonality::Cool)
        } else {
            None
        }
    }

    pub fn as_str(&self) -> (r: &'static str)
        ensures
            r@ == self.spec_name(),
    {
        match self {
            PetPersonality::Gentle => "gentle",
            PetPersonality::Motivator => "motivator",
            PetPersonality::Sarcastic => "sarcastic",
            PetPersonality::Cool => "cool",
        }
    }

    pub fn from_db(value: &str) -> (r: Result<Self, String>)
        ensures
            match Self::spec_from_name(value@) {
                Some(x) => r == Ok::<Self, String>(x),
                None => r matches Err(e) && e@ == "未知的桌宠人格: "@ + value@,
            },
    {
        if str_eq(value, "gentle") {
            Ok(PetPersonality::Gentle)
        } else if str_eq(value, "motivator") {
            Ok(PetPersonality::Motivator)
        } else if str_eq(value, "sarcastic") {
            Ok(PetPersonality::Sarcastic)
        } else if str_eq(value, "cool") {
            Ok(PetPersonality::Cool)
        } else {
            Err(crate::text::concat("未知的桌宠人格: ", value))
        }
    }

    /// The personality a stored setting names; a missing or unknown one is gentle.
    pub open spec fn spec_from_setting(v: Option<Seq<char>>) -> PetPersonality {
        match v {
            Some(s) => match Self::spec_from_name(s) {
                Some(p) => p,
                None => PetPersonality::Gentle,
            },
            None => PetPersonality::Gentle,
        }
    }

    /// The personality of a stored setting value (gentle when missing or unknown).
    pub fn from_setting(v: &Option<String>) -> (r: Self)
        ensures
            r == Self::spec_from_setting(crate::database::task_query::opt_text_view(*v)),
    {
        match v {
            Some(s) => match Self::from_db(s.as_str()) {
                Ok(p) => p,
                Err(_) => PetPersonality::Gentle,
            },
            None => PetPersonality::Gentle,
        }
    }

    /// The personality a read of the setting gives: the stored one, gentle when it is
    /// missing or unknown or the read failed.
    pub open spec fn spec_from_read(read: Result<Option<String>, String>) -> PetPersonality {
        match read {
            Ok(v) => Self::spec_from_setting(crate::database::task_query::opt_text_view(v)),
            Err(_) => PetPersonality::Gentle,
        }
    }

    /// The personality a read of the setting gives: the stored one, gentle when it is
    /// missing or unknown or the read failed.
    pub fn from_read(read: &Result<Option<String>, String>) -> (r: Self)
        ensures
            r == Self::spec_from_read(*read),
    {
        match read {
            Ok(v) => Self::from_setting(v),
            Err(_) => PetPersonality::Gentle,
        }
    }

    /// The stored personality (the setting `PET_PERSONALITY_KEY` read and passed to
    /// `from_read`); gentle when missing, unknown or unreadable.
    pub fn read_from(conn: &rusqlite::Connection) -> (r: Self)
        ensures
            exists|read: Result<Option<String>, String>| #[trigger] Self::spec_from_read(read) == r,
    {
        Self::from_read(&settings_repo::get(conn, PET_PERSONALITY_KEY))
    }
}

/// Reading back the stored name of a personality gives it again.
pub proof fn lemma_personality_roundtrip(x: PetPersonality)
    ensures
        PetPersonality::spec_from_name(x.spec_name()) == Some(x),
{
    reveal_strlit("gentle");
    reveal_strlit("motivator");
    reveal_strlit("sarcastic");
    reveal_strlit("cool");
    assert("gentle"@[0] == 'g' && "gentle"@.len() == 6);
    assert("motivator"@[0] == 'm' && "motivator"@.len() == 9);
    assert("sarcastic"@[0] == 's' && "sarcastic"@.len() == 9);
    assert("cool"@[0] == 'c' && "cool"@.len() == 4);
}

/// Position of the last `c`, or -1.
pub open spec fn last_index_of(s: Seq<char>, c: char) -> int
    decreases s.len(),
{
    if s.len() == 0 {
        -1
    } else if s.last() == c {
        s.len() - 1
    } else {
        last_index_of(s.drop_last(), c)
    }
}

proof fn lemma_last_index_bounds(s: Seq<char>, c: char)
    ensures
        -1 <= last_index_of(s, c) < s.len(),
        last_index_of(s, c) >= 0 ==> s[last_index_of(s, c)] == c,
    decreases s.len(),
{
    if s.len() > 0 && s.last() != c {
        lemma_last_index_bounds(s.drop_last(), c);
    }
}

/// Position of the last `c` in the char vector (`None` when it does not occur).
pub fn last_index(v: &Vec<char>, c: char) -> (r: Option<usize>)
    ensures
        match r {
            Some(i) => i == last_index_of(v@, c),
            None => last_index_of(v@, c) == -1,
        },
{
    let mut i: usize = v.len();
    assert(v@.take(v.len() as int) =~= v@);
    while i > 0
        invariant
            i <= v.len(),
            last_index_of(v@, c) == last_index_of(v@.take(i as int), c),
        decreases i,
    {
        assert(v@.take(i as int).drop_last() =~= v@.take(i - 1));
        if v[i - 1] == c {
            return Some(i - 1);
        }
        i -= 1;
    }
    None
}

/// A path separator of the desktop the app runs on (Windows): `/` or `\\`.
pub open spec fn is_sep(c: char) -> bool {
    c == '/' || c == '\\'
}

/// Position of the last separator, or -1.
pub open spec fn last_sep_of(s: Seq<char>) -> int
    decreases s.len(),
{
    if s.len() == 0 {
        -1
    } else if is_sep(s.last()) {
        s.len() - 1
    } else {
        last_sep_of(s.drop_last())
    }
}

proof fn lemma_last_sep_bounds(s: Seq<char>)
    ensures
        -1 <= last_sep_of(s) < s.len(),
    decreases s.len(),
{
    if s.len() > 0 && !is_sep(s.last()) {
        lemma_last_sep_bounds(s.drop_last());
    }
}

/// Position of the last separator in the char vector (`None` when there is none).
fn last_sep(v: &Vec<char>) -> (r: Option<usize>)
    ensures
        match r {
            Some(i) => i == last_sep_of(v@),
            None => last_sep_of(v@) == -1,
        },
{
    let mut i: usize = v.len();
    assert(v@.take(v.len() as int) =~= v@);
    while i > 0
        invariant
            i <= v.len(),
            last_sep_of(v@) == last_sep_of(v@.take(i as int)),
        decreases i,
    {
        assert(v@.take(i as int).drop_last() =~= v@.take(i - 1));
        if v[i - 1] == '/' || v[i - 1] == '\\' {
            return Some(i - 1);
        }
        i -= 1;
    }
    None
}

/// A path without what does not name its last component: trailing separators
/// and trailing separator-dot segments.
pub open spec fn spec_path_tail(p: Seq<char>) -> Seq<char>
    decreases p.len(),
{
    if p.len() > 0 && is_sep(p.last()) {
        spec_path_tail(p.drop_last())
    } else if p.len() >= 2 && p.last() == '.' && is_sep(p[p.len() - 2]) {
        spec_path_tail(p.take(p.len() - 2))
    } else {
        p
    }
}

/// The file name of a path: its last component.
pub open spec fn spec_file_name(p: Seq<char>) -> Seq<char> {
    let t = spec_path_tail(p);
    t.skip(last_sep_of(t) + 1)
}

/// The extension of a file name: what follows its last dot, when that dot is not
/// its first character.
pub open spec fn spec_extension(name: Seq<char>) -> Option<Seq<char>> {
    let d = last_index_of(name, '.');
    if d > 0 { Some(name.skip(d + 1)) } else { None }
}

/// MIME type for a path, by its extension in any case: png, jpg/jpeg, webp and gif
/// are known; anything else is `application/octet-stream`.
pub open spec fn spec_mime_for_ext(path: Seq<char>) -> Seq<char> {
    match spec_extension(spec_file_name(path)) {
        Some(e) => {
            let l = spec_ascii_lowercase(e);
            if l == "png"@ {
                "image/png"@
            } else if l == "jpg"@ || l == "jpeg"@ {
                "image/jpeg"@
            } else if l == "webp"@ {
                "image/webp"@
            } else if l == "gif"@ {
                "image/gif"@
            } else {
                "application/octet-stream"@
            }
        },
        None => "application/octet-stream"@,
    }
}

/// The extension of a path's file name, in ASCII lower case.
pub fn lower_extension(path: &str) -> (r: Option<String>)
    ensures
        match spec_extension(spec_file_name(path@)) {
            Some(e) => r matches Some(x) && x@ == spec_ascii_lowercase(e),
            None => r is None,
        },
{
    let all = crate::text::chars_of(path);
    let mut end: usize = all.len();
    assert(all@.take(end as int) =~= all@);
    loop
        invariant
            end <= all.len(),
            spec_path_tail(all@) == spec_path_tail(all@.take(end as int)),
        ensures
            end <= all.len(),
            spec_path_tail(all@) == all@.take(end as int),
        decreases end,
    {
        let ghost cur = all@.take(end as int);
        if end > 0 && (all[end - 1] == '/' || all[end - 1] == '\\') {
            assert(cur.drop_last() =~= all@.take(end - 1));
            end -= 1;
        } else if end >= 2 && all[end - 1] == '.' && (all[end - 2] == '/' || all[end - 2] == '\\') {
            assert(cur.take(cur.len() - 2) =~= all@.take(end - 2));
            end -= 2;
        } else {
            break;
        }
    }
    let mut t: Vec<char> = Vec::new();
    let mut k: usize = 0;
    while k < end
        invariant
            end <= all.len(),
            k <= end,
            t@ == all@.take(k as int),
        decreases end - k,
    {
        t.push(all[k]);
        k += 1;
        assert(t@ =~= all@.take(k as int));
    }
    assert(t@ == spec_path_tail(all@));
    proof { lemma_last_sep_bounds(t@); }
    let start: usize = match last_sep(&t) {
        Some(k) => k + 1,
        None => 0,
    };
    let ghost slash: int = start - 1;
    let mut name: Vec<char> = Vec::new();
    let mut i: usize = start;
    while i < t.len()
        invariant
            slash == last_sep_of(t@),
            0 <= slash + 1 <= t.len(),
            start == slash + 1,
            start <= i <= t.len(),
            name@ == t@.subrange(slash + 1, i as int),
        decreases t.len() - i,
    {
        name.push(t[i]);
        i += 1;
        assert(name@ =~= t@.subrange(slash + 1, i as int));
    }
    assert(name@ =~= t@.skip(slash + 1));
    proof { lemma_last_index_bounds(name@, '.'); }
    let dot: usize = match last_index(&name, '.') {
        Some(k) => k,
        None => { return None; },
    };
    if dot == 0 {
        return None;
    }
    let mut ext = String::new();
    let mut j: usize = dot + 1;
    while j < name.len()
        invariant
            dot == last_index_of(name@, '.'),
            0 < dot < name.len(),
            dot + 1 <= j <= name.len(),
            ext@ == spec_ascii_lowercase(name@.subrange(dot + 1, j as int)),
        decreases name.len() - j,
    {
        let c = name[j];
        let lc = if 'A' <= c && c <= 'Z' { ((c as u32) + 32) as u8 as char } else { c };
        proof {
            if 'A' <= c && c <= 'Z' {
                assert(((c as u32) + 32) as u8 as char == ascii_lower(c));
            }
        }
        crate::text::push_char(&mut ext, lc);
        j += 1;
        assert(ext@ =~= spec_ascii_lowercase(name@.subrange(dot + 1, j as int)));
    }
    assert(name@.subrange(dot + 1, name.len() as int) =~= name@.skip(dot + 1));
    Some(ext)
}

/// Guesses the MIME type of a picture from its extension (for the photo protocol).
pub fn mime_for_ext(path: &str) -> (r: &'static str)
    ensures
        r@ == spec_mime_for_ext(path@),
{
    match lower_extension(path) {
        Some(ext) => {
            let e = ext.as_str();
            if str_eq(e, "png") {
                "image/png"
            } else if str_eq(e, "jpg") || str_eq(e, "jpeg") {
                "image/jpeg"
            } else if str_eq(e, "webp") {
                "image/webp"
            } else if str_eq(e, "gif") {
                "image/gif"
            } else {
                "application/octet-stream"
            }
        },
        None => "application/octet-stream",
    }
}

// ---------------------------------------------------------------------------
// The photo configuration.
// ---------------------------------------------------------------------------

pub const PET_PHOTO_SCHEME_HOST: &'static str = "http://petphoto.localhost";

/// What is on disk about one picture file: whether it is a regular file, and when
/// it was last modified (whole seconds since the epoch; 0 when unknown).
#[derive(Debug, Clone, Copy)]
pub struct FileFacts {
    pub is_file: bool,
    pub version: u64,
}

/// The stored photo settings, each `None` when absent or unreadable.
#[derive(Debug, Clone)]
pub struct PhotoSettings {
    pub path: Option<String>,
    pub source_path: Option<String>,
    pub enabled: Option<String>,
    pub style: Option<String>,
    pub tolerance: Option<String>,
    pub segmentation: Option<String>,
    pub frame_ms: Option<String>,
    pub size: Option<String>,
    pub opacity: Option<String>,
}

/// The photo pet's configuration, shared by the pet window and the pet centre.
#[derive(Debug, Clone)]
pub struct PetPhotoConfig {
    /// The processed pet picture (`None` when none was imported).
    pub path: Option<String>,
    /// Whether the photo pet is shown (otherwise the default cat).
    pub enabled: bool,
    /// Address of the processed picture for `<img src>`.
    pub url: Option<String>,
    /// The photo the user uploaded.
    pub source_path: Option<String>,
    /// Address of the uploaded photo.
    pub source_url: Option<String>,
    pub style: String,
    pub tolerance: u8,
    /// Whether the person segmentation model is used (otherwise the geometric cut).
    pub use_ai: bool,
    /// Addresses of all animation frames; frame 0 is the main picture.
    pub frames: Vec<String>,
    pub frame_ms: u64,
    pub pet_size: u32,
    pub pet_opacity: u8,
}

pub open spec fn spec_photo_url(kind: Seq<char>, version: u64) -> Seq<char> {
    "http://petphoto.localhost/"@ + kind + "?v="@ + spec_dec_nat(version as nat)
}

pub open spec fn spec_frame_url(index: int, version: u64) -> Seq<char> {
    "http://petphoto.localhost/frame?i="@ + spec_dec_nat(index as nat) + "&v="@ + spec_dec_nat(
        version as nat,
    )
}

/// The photo protocol address of a picture of the given kind; the version (the
/// file's modification time) makes the page reload it after a change.
pub fn photo_url(kind: &str, version: u64) -> (r: String)
    ensures
        r@ == spec_photo_url(kind@, version),
{
    let v = crate::text::u64_to_string(version);
    let mut out = String::from_str("http://petphoto.localhost/");
    out.append(kind);
    out.append("?v=");
    out.append(v.as_str());
    proof {
        reveal_strlit("http://petphoto.localhost/");
    }
    out
}

/// The photo protocol address of animation frame `index`.
pub fn frame_url(index: u64, version: u64) -> (r: String)
    ensures
        r@ == spec_frame_url(index as int, version),
{
    let i = crate::text::u64_to_string(index);
    let v = crate::text::u64_to_string(version);
    let mut out = String::from_str("http://petphoto.localhost/frame?i=");
    out.append(i.as_str());
    out.append("&v=");
    out.append(v.as_str());
    out
}

/// A stored path, kept only when it names an existing file.
pub open spec fn existing(path: Option<Seq<char>>, f: FileFacts) -> Option<Seq<char>> {
    if f.is_file { path } else { None }
}

pub open spec fn parsed_or(v: Option<Seq<char>>, lo: int, hi: int, fallback: int) -> int {
    match v {
        Some(t) => match spec_parse_int(t, lo, hi) {
            Some(x) => x,
            None => fallback,
        },
        None => fallback,
    }
}

pub open spec fn clamp_int(v: int, lo: int, hi: int) -> int {
    if v < lo { lo } else if v > hi { hi } else { v }
}

/// The versions of the frame sprites that exist, in order.
pub open spec fn kept_versions(sprites: Seq<FileFacts>) -> Seq<u64>
    decreases sprites.len(),
{
    if sprites.len() == 0 {
        Seq::empty()
    } else {
        let prev = kept_versions(sprites.drop_last());
        if sprites.last().is_file { prev.push(sprites.last().version) } else { prev }
    }
}

/// The frame addresses: the main picture as frame 0 when it exists, then each
/// existing extra frame numbered from 1.
pub open spec fn spec_frame_urls(main: Option<u64>, sprites: Seq<FileFacts>) -> Seq<Seq<char>> {
    let first: Seq<Seq<char>> = match main {
        Some(v) => seq![spec_frame_url(0, v)],
        None => Seq::empty(),
    };
    let kept = kept_versions(sprites);
    first + Seq::new(kept.len(), |i: int| spec_frame_url(i + 1, kept[i]))
}

pub open spec fn strings_view(v: Seq<String>) -> Seq<Seq<char>> {
    v.map_values(|s: String| s@)
}

/// The value a read of a setting gives: `None` when it is missing or the read failed.
pub open spec fn spec_setting_of_read(read: Result<Option<String>, String>) -> Option<String> {
    match read {
        Ok(v) => v,
        Err(_) => None::<String>,
    }
}

/// The value a read of a setting gives: `None` when it is missing or the read failed.
pub fn setting_of_read(read: Result<Option<String>, String>) -> (r: Option<String>)
    ensures
        r == spec_setting_of_read(read),
{
    match read {
        Ok(v) => v,
        Err(_) => None,
    }
}

/// The value stored under a key (the setting read and passed to `setting_of_read`);
/// `None` when it is missing or cannot be read.
pub fn stored_setting(conn: &rusqlite::Connection, key: &str) -> (r: Option<String>)
    ensures
        exists|read: Result<Option<String>, String>| #[trigger] spec_setting_of_read(read) == r,
{
    setting_of_read(settings_repo::get(conn, key))
}

/// Reads the stored photo settings.
pub fn read_photo_settings(conn: &rusqlite::Connection) -> PhotoSettings {
    PhotoSettings {
        path: stored_setting(conn, PET_PHOTO_PATH_KEY),
        source_path: stored_setting(conn, PET_PHOTO_SOURCE_PATH_KEY),
        enabled: stored_setting(conn, PET_PHOTO_ENABLED_KEY),
        style: stored_setting(conn, PET_STYLE_KEY),
        tolerance: stored_setting(conn, PET_TOLERANCE_KEY),
        segmentation: stored_setting(conn, PET_SEGMENTATION_KEY),
        frame_ms: stored_setting(conn, PET_FRAME_MS_KEY),
        size: stored_setting(conn, PET_SIZE_KEY),
        opacity: stored_setting(conn, PET_OPACITY_KEY),
    }
}

/// Whether the pet is switched on (it is unless the stored switch says "false").
pub fn is_pet_enabled(conn: &rusqlite::Connection) -> (r: bool)
    ensures
        exists|v: Option<Seq<char>>| #[trigger] spec_pet_enabled_of(v) == r,
{
    let stored = stored_setting(conn, PET_ENABLED_KEY);
    pet_enabled_of(&stored)
}

/// Whether a stored pet switch shows the pet: anything but "false" does, and so does
/// a missing setting.
pub open spec fn spec_pet_enabled_of(v: Option<Seq<char>>) -> bool {
    match v {
        Some(x) => x != "false"@,
        None => true,
    }
}

/// A copy of an optional string.
pub fn clone_opt(o: &Option<String>) -> (r: Option<String>)
    ensures
        opt_string_view(r) == opt_string_view(*o),
{
    match o {
        Some(v) => Some(v.clone()),
        None => None,
    }
}

fn parse_or_u8(v: &Option<String>, fallback: u8) -> (r: u8)
    ensures
        r == parsed_or(opt_string_view(*v), 0, 255, fallback as int),
{
    match v {
        Some(t) => match crate::text::parse_u8(t.as_str()) {
            Some(x) => x,
            None => fallback,
        },
        None => fallback,
    }
}

/// Builds the configuration from the stored settings and what is on disk: the
/// processed picture, the uploaded photo (falling back to the processed picture)
/// and, in order, the sprite of each stored extra frame.
pub fn photo_config(
    s: &PhotoSettings,
    path_file: FileFacts,
    source_file: FileFacts,
    sprites: &Vec<FileFacts>,
) -> (r: PetPhotoConfig)
    ensures
        opt_string_view(r.path) == existing(opt_string_view(s.path), path_file),
        opt_string_view(r.source_path) == match existing(opt_string_view(s.source_path), source_file) {
            Some(p) => Some(p),
            None => existing(opt_string_view(s.path), path_file),
        },
        r.enabled == (opt_string_view(s.enabled) == Some("true"@)),
        r.style@ == match opt_string_view(s.style) {
            Some(v) => v,
            None => "original"@,
        },
        r.tolerance == parsed_or(opt_string_view(s.tolerance), 0, 255, 30),
        r.use_ai == match opt_string_view(s.segmentation) {
            Some(v) => v != "false"@,
            None => true,
        },
        r.frame_ms == match opt_string_view(s.frame_ms) {
            Some(t) => match spec_parse_int(t, 0, u64::MAX as int) {
                Some(x) => clamp_int(x, 100, 2000),
                None => 300,
            },
            None => 300,
        },
        r.pet_size == match opt_string_view(s.size) {
            Some(t) => match spec_parse_int(t, 0, u32::MAX as int) {
                Some(x) => spec_clamp_u32(x as u32, PET_SIZE_MIN, PET_SIZE_MAX, PET_SIZE_DEFAULT) as int,
                None => PET_SIZE_DEFAULT as int,
            },
            None => PET_SIZE_DEFAULT as int,
        },
        r.pet_opacity == match opt_string_view(s.opacity) {
            Some(t) => match spec_parse_int(t, 0, 255) {
                Some(x) => clamp_int(x, 20, 100),
                None => 100,
            },
            None => 100,
        },
        opt_string_view(r.url) == match existing(opt_string_view(s.path), path_file) {
            Some(_) => Some(spec_photo_url("photo"@, path_file.version)),
            None => None,
        },
        opt_string_view(r.source_url) == match existing(opt_string_view(s.source_path), source_file) {
            Some(_) => Some(spec_photo_url("source"@, source_file.version)),
            None => match existing(opt_string_view(s.path), path_file) {
                Some(_) => Some(spec_photo_url("source"@, path_file.version)),
                None => None,
            },
        },
        strings_view(r.frames@) == spec_frame_urls(
            match existing(opt_string_view(s.path), path_file) {
                Some(_) => Some(path_file.version),
                None => None,
            },
            sprites@,
        ),
{
    let path: Option<String> = if path_file.is_file { clone_opt(&s.path) } else { None };
    let own_source: Option<String> = if source_file.is_file { clone_opt(&s.source_path) } else { None };
    let (source_path, source_version) = match own_source {
        Some(p) => (Some(p), source_file.version),
        None => (clone_opt(&path), path_file.version),
    };
    let enabled = match &s.enabled {
        Some(v) => str_eq(v.as_str(), "true"),
        None => false,
    };
    let style = match &s.style {
        Some(v) => v.clone(),
        None => String::from_str("original"),
    };
    let tolerance = parse_or_u8(&s.tolerance, DEFAULT_TOLERANCE);
    let use_ai = match &s.segmentation {
        Some(v) => !str_eq(v.as_str(), "false"),
        None => true,
    };
    let frame_ms = match &s.frame_ms {
        Some(t) => match crate::text::parse_u64(t.as_str()) {
            Some(x) => if x < 100 { 100 } else if x > 2000 { 2000 } else { x },
            None => PET_FRAME_MS_DEFAULT,
        },
        None => PET_FRAME_MS_DEFAULT,
    };
    let pet_size = match &s.size {
        Some(t) => match crate::text::parse_u32(t.as_str()) {
            Some(x) => clamp_u32(x, PET_SIZE_MIN, PET_SIZE_MAX, PET_SIZE_DEFAULT),
            None => PET_SIZE_DEFAULT,
        },
        None => PET_SIZE_DEFAULT,
    };
    let pet_opacity = match &s.opacity {
        Some(t) => match crate::text::parse_u8(t.as_str()) {
            Some(x) => if x < 20 { 20 } else if x > 100 { 100 } else { x },
            None => PET_OPACITY_DEFAULT,
        },
        None => PET_OPACITY_DEFAULT,
    };
    let mut frames: Vec<String> = Vec::new();
    if path.is_some() {
        frames.push(frame_url(0, path_file.version));
    }
    let ghost first = strings_view(frames@);
    let mut kept: u64 = 0;
    let mut i: usize = 0;
    while i < sprites.len()
        invariant
            i <= sprites.len(),
            kept as int == kept_versions(sprites@.take(i as int)).len(),
            kept <= i,
            strings_view(frames@) == first + Seq::new(
                kept_versions(sprites@.take(i as int)).len(),
                |j: int| spec_frame_url(j + 1, kept_versions(sprites@.take(i as int))[j]),
            ),
        decreases sprites.len() - i,
    {
        let f = sprites[i];
        let ghost kv0 = kept_versions(sprites@.take(i as int));
        let ghost view0 = strings_view(frames@);
        assert(sprites@.take(i + 1).drop_last() =~= sprites@.take(i as int));
        assert(sprites@.take(i + 1).last() == f);
        if f.is_file {
            let u = frame_url(kept + 1, f.version);
            let ghost uv = u@;
            frames.push(u);
            proof {
                assert(strings_view(frames@) =~= view0.push(uv));
            }
            kept += 1;
        }
        i += 1;
        proof {
            let kv = kept_versions(sprites@.take(i as int));
            if f.is_file {
                assert(kv == kv0.push(f.version));
            } else {
                assert(kv == kv0);
            }
            assert(strings_view(frames@) =~= first + Seq::new(kv.len(), |j: int| spec_frame_url(j + 1, kv[j])));
        }
    }
    assert(sprites@.take(sprites.len() as int) =~= sprites@);
    let url = match &path {
        Some(_) => Some(photo_url("photo", path_file.version)),
        None => None,
    };
    let source_url = match &source_path {
        Some(_) => Some(photo_url("source", source_version)),
        None => None,
    };
    proof {
        reveal_strlit("true");
        reveal_strlit("false");
    }
    PetPhotoConfig {
        path,
        enabled,
        url,
        source_path,
        source_url,
        style,
        tolerance,
        use_ai,
        frames,
        frame_ms,
        pet_size,
        pet_opacity,
    }
}


// ---------------------------------------------------------------------------
// Settings the pet commands store.
// ---------------------------------------------------------------------------

/// One value to store under a settings key.
#[derive(Debug, Clone)]
pub struct SettingWrite {
    pub key: String,
    pub value: String,
}

pub open spec fn writes_view(v: Seq<SettingWrite>) -> Seq<(Seq<char>, Seq<char>)> {
    v.map_values(|w: SettingWrite| (w.key@, w.value@))
}

pub fn setting_write(key: &str, value: &str) -> (r: SettingWrite)
    ensures
        r.key@ == key@,
        r.value@ == value@,
{
    SettingWrite { key: String::from_str(key), value: String::from_str(value) }
}

/// Stores the values in order, stopping at the first failure.
pub fn store_settings(conn: &rusqlite::Connection, writes: &Vec<SettingWrite>) -> (r: Result<(), String>)
    ensures
        r matches Err(e) ==> exists|i: int|
            0 <= i < writes.len() && settings_error(#[trigger] writes@[i].key@, "写入设置失败 ("@).is_prefix_of(e@),
        writes.len() == 0 ==> r is Ok,
{
    let mut i: usize = 0;
    while i < writes.len()
        invariant
            i <= writes.len(),
        decreases writes.len() - i,
    {
        let w = &writes[i];
        match settings_repo::set(conn, w.key.as_str(), w.value.as_str()) {
            Ok(()) => {},
            Err(e) => {
                assert(settings_error(writes@[i as int].key@, "写入设置失败 ("@).is_prefix_of(e@));
                return Err(e);
            },
        }
        i += 1;
    }
    Ok(())
}

pub open spec fn spec_flag(b: bool) -> Seq<char> {
    if b { "true"@ } else { "false"@ }
}

/// How a switch is stored.
pub fn flag_text(b: bool) -> (r: &'static str)
    ensures
        r@ == spec_flag(b),
{
    if b { "true" } else { "false" }
}

/// Whether the stored pet switch shows the pet: anything but "false" does, and so
/// does a missing setting.
pub fn pet_enabled_of(v: &Option<String>) -> (r: bool)
    ensures
        r == spec_pet_enabled_of(opt_string_view(*v)),
{
    match v {
        Some(x) => !str_eq(x.as_str(), "false"),
        None => true,
    }
}

/// Showing or hiding the pet.
pub fn visibility_writes(visible: bool) -> (r: Vec<SettingWrite>)
    ensures
        writes_view(r@) == seq![(PET_ENABLED_KEY@, spec_flag(visible))],
{
    let mut out: Vec<SettingWrite> = Vec::new();
    out.push(setting_write(PET_ENABLED_KEY, flag_text(visible)));
    assert(writes_view(out@) =~= seq![(PET_ENABLED_KEY@, spec_flag(visible))]);
    out
}

/// Switching between the photo pet and the default cat.
pub fn photo_enabled_writes(enabled: bool) -> (r: Vec<SettingWrite>)
    ensures
        writes_view(r@) == seq![(PET_PHOTO_ENABLED_KEY@, spec_flag(enabled))],
{
    let mut out: Vec<SettingWrite> = Vec::new();
    out.push(setting_write(PET_PHOTO_ENABLED_KEY, flag_text(enabled)));
    assert(writes_view(out@) =~= seq![(PET_PHOTO_ENABLED_KEY@, spec_flag(enabled))]);
    out
}

/// The animation speed, brought into 100..=2000 ms.
pub fn frame_speed_writes(ms: u64) -> (r: Vec<SettingWrite>)
    ensures
        writes_view(r@) == seq![(PET_FRAME_MS_KEY@, spec_dec_nat(clamp_int(ms as int, 100, 2000) as nat))],
{
    let v = if ms < 100 { 100 } else if ms > 2000 { 2000 } else { ms };
    let text = crate::text::u64_to_string(v);
    let mut out: Vec<SettingWrite> = Vec::new();
    out.push(setting_write(PET_FRAME_MS_KEY, text.as_str()));
    assert(writes_view(out@) =~= seq![(PET_FRAME_MS_KEY@, spec_dec_nat(clamp_int(ms as int, 100, 2000) as nat))]);
    out
}

/// The display size (64..=192 px, 0 meaning the default) and opacity (20..=100 %).
pub fn display_writes(size: u32, opacity: u8) -> (r: Vec<SettingWrite>)
    ensures
        writes_view(r@) == seq![
            (PET_SIZE_KEY@, spec_dec_nat(spec_clamp_u32(size, PET_SIZE_MIN, PET_SIZE_MAX, PET_SIZE_DEFAULT) as nat)),
            (PET_OPACITY_KEY@, spec_dec_nat(clamp_int(opacity as int, 20, 100) as nat)),
        ],
{
    let size = clamp_u32(size, PET_SIZE_MIN, PET_SIZE_MAX, PET_SIZE_DEFAULT);
    let opacity = if opacity < 20 { 20 } else if opacity > 100 { 100 } else { opacity };
    let size_text = crate::text::u64_to_string(size as u64);
    let opacity_text = crate::text::u64_to_string(opacity as u64);
    let mut out: Vec<SettingWrite> = Vec::new();
    out.push(setting_write(PET_SIZE_KEY, size_text.as_str()));
    out.push(setting_write(PET_OPACITY_KEY, opacity_text.as_str()));
    assert(writes_view(out@) =~= seq![
        (PET_SIZE_KEY@, spec_dec_nat(spec_clamp_u32(size, PET_SIZE_MIN, PET_SIZE_MAX, PET_SIZE_DEFAULT) as nat)),
        (PET_OPACITY_KEY@, spec_dec_nat(clamp_int(opacity as int, 20, 100) as nat)),
    ]);
    out
}

/// The new personality, checked; an unknown name is refused.
pub fn personality_writes(name: &str) -> (r: Result<Vec<SettingWrite>, String>)
    ensures
        match PetPersonality::spec_from_name(name@) {
            Some(p) => r matches Ok(w) && writes_view(w@) == seq![(PET_PERSONALITY_KEY@, p.spec_name())],
            None => r matches Err(e) && e@ == "未知的桌宠人格: "@ + name@,
        },
{
    let p = PetPersonality::from_db(name)?;
    let mut out: Vec<SettingWrite> = Vec::new();
    out.push(setting_write(PET_PERSONALITY_KEY, p.as_str()));
    assert(writes_view(out@) =~= seq![(PET_PERSONALITY_KEY@, p.spec_name())]);
    Ok(out)
}

/// The parameters a reprocessing changes, in the order they are stored: the style
/// as given, the tolerance in decimal, the segmentation switch.
pub open spec fn spec_reprocess_writes(
    style: Option<Seq<char>>,
    tolerance: Option<u8>,
    use_ai: Option<bool>,
) -> Seq<(Seq<char>, Seq<char>)> {
    let a: Seq<(Seq<char>, Seq<char>)> = match style {
        Some(s) => seq![(PET_STYLE_KEY@, s)],
        None => Seq::empty(),
    };
    let b: Seq<(Seq<char>, Seq<char>)> = match tolerance {
        Some(t) => seq![(PET_TOLERANCE_KEY@, spec_dec_nat(t as nat))],
        None => Seq::empty(),
    };
    let c: Seq<(Seq<char>, Seq<char>)> = match use_ai {
        Some(u) => seq![(PET_SEGMENTATION_KEY@, spec_flag(u))],
        None => Seq::empty(),
    };
    a + b + c
}

pub fn reprocess_writes(style: &Option<String>, tolerance: Option<u8>, use_ai: Option<bool>) -> (r: Vec<
    SettingWrite,
>)
    ensures
        writes_view(r@) == spec_reprocess_writes(opt_string_view(*style), tolerance, use_ai),
{
    let mut out: Vec<SettingWrite> = Vec::new();
    if let Some(s) = style {
        out.push(setting_write(PET_STYLE_KEY, s.as_str()));
    }
    let ghost a = writes_view(out@);
    if let Some(t) = tolerance {
        let text = crate::text::u64_to_string(t as u64);
        out.push(setting_write(PET_TOLERANCE_KEY, text.as_str()));
    }
    let ghost ab = writes_view(out@);
    if let Some(u) = use_ai {
        out.push(setting_write(PET_SEGMENTATION_KEY, flag_text(u)));
    }
    proof {
        let sa: Seq<(Seq<char>, Seq<char>)> = match opt_string_view(*style) {
            Some(s) => seq![(PET_STYLE_KEY@, s)],
            None => Seq::empty(),
        };
        let sb: Seq<(Seq<char>, Seq<char>)> = match tolerance {
            Some(t) => seq![(PET_TOLERANCE_KEY@, spec_dec_nat(t as nat))],
            None => Seq::empty(),
        };
        assert(a =~= sa);
        assert(ab =~= sa + sb);
        assert(writes_view(out@) =~= spec_reprocess_writes(opt_string_view(*style), tolerance, use_ai));
    }
    out
}

// ---------------------------------------------------------------------------
// Reprocessing and animation frames.
// ---------------------------------------------------------------------------

/// What a reprocessing works with.
#[derive(Debug, Clone)]
pub struct ReprocessPlan {
    pub source: String,
    pub style: PetStyle,
    pub tolerance: u8,
    pub use_ai: bool,
}

/// Settles the parameters of a reprocessing: each one given replaces the current
/// one. Needs an imported photo that still exists; a given style must be known.
pub fn plan_reprocess(
    current: &PetPhotoConfig,
    source_is_file: bool,
    tolerance: Option<u8>,
    style: &Option<String>,
    use_ai: Option<bool>,
) -> (r: Result<ReprocessPlan, String>)
    ensures
        match (if source_is_file { opt_string_view(current.source_path) } else { None }) {
            None => r matches Err(e) && e@ == "还没有导入照片"@,
            Some(src) => match opt_string_view(*style) {
                Some(s) if PetStyle::spec_from_name(s) is None => r matches Err(e) && e@ == "未知的桌宠风格: "@ + s,
                _ => r matches Ok(plan) && plan.source@ == src && plan.style == match opt_string_view(*style) {
                    Some(s) => PetStyle::spec_from_name(s)->Some_0,
                    None => match PetStyle::spec_from_name(current.style@) {
                        Some(x) => x,
                        None => PetStyle::Original,
                    },
                } && plan.tolerance == match tolerance {
                    Some(t) => t,
                    None => current.tolerance,
                } && plan.use_ai == match use_ai {
                    Some(u) => u,
                    None => current.use_ai,
                },
            },
        },
{
    let source = match &current.source_path {
        Some(p) => {
            if source_is_file {
                p.clone()
            } else {
                return Err(String::from_str("还没有导入照片"));
            }
        },
        None => {
            return Err(String::from_str("还没有导入照片"));
        },
    };
    let new_style = match style {
        Some(s) => PetStyle::from_db(s.as_str())?,
        None => match PetStyle::from_db(current.style.as_str()) {
            Ok(x) => x,
            Err(_) => PetStyle::Original,
        },
    };
    let new_tolerance = match tolerance {
        Some(t) => t,
        None => current.tolerance,
    };
    let new_use_ai = match use_ai {
        Some(u) => u,
        None => current.use_ai,
    };
    Ok(ReprocessPlan { source, style: new_style, tolerance: new_tolerance, use_ai: new_use_ai })
}

/// A new frame needs a main picture first.
pub fn require_main_photo(source_path: &Option<String>) -> (r: Result<(), String>)
    ensures
        source_path is Some <==> r is Ok,
        r matches Err(e) ==> e@ == "请先上传主形象照片，再添加动画帧"@,
{
    match source_path {
        Some(_) => Ok(()),
        None => Err(String::from_str("请先上传主形象照片，再添加动画帧")),
    }
}

/// Room for one more extra frame: at most seven besides the main picture.
pub fn check_frame_room(extra_frames: usize) -> (r: Result<(), String>)
    ensures
        extra_frames < MAX_EXTRA_FRAMES <==> r is Ok,
        r matches Err(e) ==> e@ == "帧数已达上限（主形象 + 7 帧）"@,
{
    if extra_frames >= MAX_EXTRA_FRAMES {
        Err(String::from_str("帧数已达上限（主形象 + 7 帧）"))
    } else {
        Ok(())
    }
}

/// Positions of the stored extra frames that the configuration shows (those whose
/// sprite file exists), in order.
pub open spec fn shown_positions(sprites: Seq<FileFacts>) -> Seq<int>
    decreases sprites.len(),
{
    if sprites.len() == 0 {
        Seq::empty()
    } else {
        let prev = shown_positions(sprites.drop_last());
        if sprites.last().is_file { prev.push(sprites.len() - 1) } else { prev }
    }
}

/// The shown extra frames are the kept ones of the configuration: as many, each a
/// stored position in range, in increasing order, whose sprite exists and gives the
/// kept version.
pub proof fn lemma_shown_positions(sprites: Seq<FileFacts>)
    ensures
        shown_positions(sprites).len() == kept_versions(sprites).len(),
        forall|j: int| 0 <= j < shown_positions(sprites).len() ==> {
            let p = #[trigger] shown_positions(sprites)[j];
            &&& 0 <= p < sprites.len()
            &&& sprites[p].is_file
            &&& kept_versions(sprites)[j] == sprites[p].version
        },
        forall|j: int, k: int| 0 <= j < k < shown_positions(sprites).len() ==> shown_positions(sprites)[j] < shown_positions(sprites)[k],
    decreases sprites.len(),
{
    if sprites.len() > 0 {
        lemma_shown_positions(sprites.drop_last());
    }
}

/// Number of frames the configuration lists: the main picture when it is shown,
/// then the extra frames whose sprite exists.
pub open spec fn shown_frame_count(main_shown: bool, sprites: Seq<FileFacts>) -> int {
    (if main_shown { 1int } else { 0int }) + kept_versions(sprites).len()
}

/// Removes frame `index` of the configuration's frame list (as `photo_config` lists
/// it: the main picture first when it is shown, then the extra frames whose sprite
/// exists) from the stored extra frames. `sprites[k]` tells whether the sprite of
/// stored frame `k` exists. Frame 0 is the main picture and stays; an index past the
/// list is not found.
pub fn remove_frame(frames: &mut Vec<FrameEntry>, main_shown: bool, sprites: &Vec<FileFacts>, index: usize) -> (r: Result<FrameEntry, String>)
    requires
        sprites.len() == old(frames).len(),
    ensures
        index == 0 ==> (r matches Err(e) && e@ == "第 0 帧是主形象，请用「更换照片…」替换"@) && final(frames)@
            == old(frames)@,
        (index > 0 && index >= shown_frame_count(main_shown, sprites@)) ==> (r matches Err(e) && e@ == "帧不存在"@)
            && final(frames)@ == old(frames)@,
        0 < index < shown_frame_count(main_shown, sprites@) ==> ({
            let p = shown_positions(sprites@)[index - (if main_shown { 1int } else { 0int })];
            (r matches Ok(f) && f == old(frames)@[p]) && final(frames)@ == old(frames)@.remove(p)
        }),
{
    proof {
        lemma_shown_positions(sprites@);
    }
    if index == 0 {
        return Err(String::from_str("第 0 帧是主形象，请用「更换照片…」替换"));
    }
    let target: usize = if main_shown { index - 1 } else { index };
    let mut count: usize = 0;
    let mut i: usize = 0;
    while i < sprites.len()
        invariant
            i <= sprites.len(),
            sprites.len() == frames.len(),
            frames@ == old(frames)@,
            index > 0,
            target == (if main_shown { index - 1 } else { index as int }),
            count == shown_positions(sprites@.take(i as int)).len(),
            count <= target,
        decreases sprites.len() - i,
    {
        proof {
            assert(sprites@.take(i + 1).drop_last() =~= sprites@.take(i as int));
        }
        if sprites[i].is_file {
            if count == target {
                proof {
                    let t1 = sprites@.take(i + 1);
                    assert(shown_positions(t1) == shown_positions(sprites@.take(i as int)).push(i as int));
                    lemma_shown_prefix(sprites@, i + 1);
                    lemma_shown_positions(sprites@);
                }
                return Ok(frames.remove(i));
            }
            count += 1;
        }
        i += 1;
    }
    proof {
        assert(sprites@.take(sprites.len() as int) =~= sprites@);
    }
    Err(String::from_str("帧不存在"))
}

/// The shown positions of a prefix of the stored frames are the first ones of all.
proof fn lemma_shown_prefix(sprites: Seq<FileFacts>, n: int)
    requires
        0 <= n <= sprites.len(),
    ensures
        shown_positions(sprites.take(n)).len() <= shown_positions(sprites).len(),
        forall|j: int| 0 <= j < shown_positions(sprites.take(n)).len() ==> #[trigger] shown_positions(sprites)[j]
            == shown_positions(sprites.take(n))[j],
    decreases sprites.len() - n,
{
    if n < sprites.len() {
        lemma_shown_prefix(sprites, n + 1);
        assert(sprites.take(n + 1).drop_last() =~= sprites.take(n));
    } else {
        assert(sprites.take(n) =~= sprites);
    }
}

// ---------------------------------------------------------------------------
// File names.
// ---------------------------------------------------------------------------

/// File name of the processed main picture.
pub const PET_SPRITE_FILE_NAME: &'static str = "pet_photo.png";

/// The extension an imported photo keeps: its own in lower case, `png` without one.
pub fn photo_extension(path: &str) -> (r: String)
    ensures
        r@ == match spec_extension(spec_file_name(path@)) {
            Some(e) => spec_ascii_lowercase(e),
            None => "png"@,
        },
{
    match lower_extension(path) {
        Some(e) => e,
        None => String::from_str("png"),
    }
}

/// Where the uploaded main photo is copied: `pet_source.<ext>`.
pub fn source_file_name(ext: &str) -> (r: String)
    ensures
        r@ == "pet_source."@ + ext@,
{
    crate::text::concat("pet_source.", ext)
}

/// Where the photo of an extra frame is copied: `pet_source_f<ts>.<ext>`.
pub fn frame_source_file_name(ts: i64, ext: &str) -> (r: String)
    ensures
        r@ == "pet_source_f"@ + crate::text::spec_dec(ts as int) + "."@ + ext@,
{
    let t = crate::text::i64_to_string(ts);
    let mut out = String::from_str("pet_source_f");
    out.append(t.as_str());
    out.append(".");
    out.append(ext);
    out
}

/// Where the processed picture of an extra frame goes: `pet_frame_<ts>.png`.
pub fn frame_sprite_file_name(ts: i64) -> (r: String)
    ensures
        r@ == "pet_frame_"@ + crate::text::spec_dec(ts as int) + ".png"@,
{
    let t = crate::text::i64_to_string(ts);
    crate::text::concat3("pet_frame_", t.as_str(), ".png")
}

// ---------------------------------------------------------------------------
// The photo protocol.
// ---------------------------------------------------------------------------

/// Which picture a photo protocol request asks for.
#[derive(Debug, Clone, Copy, PartialEq, Eq, Structural)]
pub enum PhotoTarget {
    /// The processed main picture.
    Photo,
    /// The uploaded photo.
    Source,
    /// Animation frame `i` (0 is the main picture).
    Frame(usize),
}

/// Position of the first `&`, or the length when there is none.
pub open spec fn amp_index(q: Seq<char>) -> int
    decreases q.len(),
{
    if q.len() == 0 {
        0
    } else if q[0] == '&' {
        0
    } else {
        1 + amp_index(q.drop_first())
    }
}

proof fn lemma_amp_index(q: Seq<char>, m: int)
    requires
        0 <= m <= q.len(),
        forall|j: int| 0 <= j < m ==> q[j] != '&',
        m == q.len() || q[m] == '&',
    ensures
        amp_index(q) == m,
    decreases m,
{
    if m > 0 {
        lemma_amp_index(q.drop_first(), m - 1);
    }
}

proof fn lemma_amp_index_bounds(q: Seq<char>)
    ensures
        0 <= amp_index(q) <= q.len(),
    decreases q.len(),
{
    if q.len() > 0 && q[0] != '&' {
        lemma_amp_index_bounds(q.drop_first());
    }
}

/// The value of the first `&`-separated part of a query that starts with `i=`.
pub open spec fn index_value(q: Seq<char>) -> Option<Seq<char>>
    decreases q.len(),
{
    let i = amp_index(q);
    let part = q.take(i);
    if part.len() >= 2 && part[0] == 'i' && part[1] == '=' {
        Some(part.skip(2))
    } else if 0 <= i < q.len() {
        index_value(q.skip(i + 1))
    } else {
        None
    }
}

pub open spec fn spec_photo_target(path: Seq<char>, query: Option<Seq<char>>) -> PhotoTarget {
    let frame: Option<int> = if crate::text::spec_ends_with(path, "/frame"@) {
        match query {
            Some(q) => match index_value(q) {
                Some(v) => spec_parse_int(v, 0, usize::MAX as int),
                None => None,
            },
            None => None,
        }
    } else {
        None
    };
    match frame {
        Some(i) => PhotoTarget::Frame(i as usize),
        None => if crate::text::spec_ends_with(path, "/source"@) {
            PhotoTarget::Source
        } else {
            PhotoTarget::Photo
        },
    }
}

/// The part `start..end` of the characters, without its leading `i=`, when it has one.
fn index_part(cs: &Vec<char>, start: usize, end: usize) -> (r: Option<String>)
    requires
        start <= end <= cs.len(),
    ensures
        ({
            let part = cs@.subrange(start as int, end as int);
            if part.len() >= 2 && part[0] == 'i' && part[1] == '=' {
                r matches Some(x) && x@ == part.skip(2)
            } else {
                r is None
            }
        }),
{
    if end - start >= 2 && cs[start] == 'i' && cs[start + 1] == '=' {
        let mut v: Vec<char> = Vec::new();
        let mut j: usize = start + 2;
        while j < end
            invariant
                start + 2 <= j <= end <= cs.len(),
                v@ == cs@.subrange(start + 2, j as int),
            decreases end - j,
        {
            v.push(cs[j]);
            j += 1;
            assert(v@ =~= cs@.subrange(start + 2, j as int));
        }
        assert(v@ =~= cs@.subrange(start as int, end as int).skip(2));
        Some(crate::text::string_of(&v))
    } else {
        None
    }
}

/// The first `i=` value of a query.
fn query_index_value(q: &str) -> (r: Option<String>)
    ensures
        match index_value(q@) {
            Some(v) => r matches Some(x) && x@ == v,
            None => r is None,
        },
{
    let cs = crate::text::chars_of(q);
    let mut start: usize = 0;
    let mut i: usize = 0;
    assert(q@.skip(0) =~= q@);
    while i < cs.len()
        invariant
            cs@ == q@,
            start <= i <= cs.len(),
            forall|j: int| start <= j < i ==> cs@[j] != '&',
            index_value(q@) == index_value(q@.skip(start as int)),
        decreases cs.len() - i,
    {
        if cs[i] == '&' {
            let ghost rest = q@.skip(start as int);
            proof {
                lemma_amp_index(rest, i - start);
                assert(rest.take(i - start) =~= q@.subrange(start as int, i as int));
            }
            let found = index_part(&cs, start, i);
            if found.is_some() {
                return found;
            }
            proof {
                assert(rest.skip(i - start + 1) =~= q@.skip(i + 1));
            }
            start = i + 1;
        }
        i += 1;
    }
    let ghost rest = q@.skip(start as int);
    proof {
        lemma_amp_index(rest, i - start);
        assert(rest.take(i - start) =~= q@.subrange(start as int, i as int));
    }
    index_part(&cs, start, i)
}

/// Which picture a photo protocol request asks for: `/frame` with an `i=N` query
/// part asks for frame N, a path ending in `/source` for the uploaded photo, and
/// anything else for the processed picture.
pub fn photo_target(path: &str, query: &Option<String>) -> (r: PhotoTarget)
    ensures
        r == spec_photo_target(path@, opt_string_view(*query)),
{
    let mut frame: Option<usize> = None;
    if crate::text::ends_with(path, "/frame") {
        if let Some(q) = query {
            if let Some(v) = query_index_value(q.as_str()) {
                frame = crate::text::parse_usize(v.as_str());
            }
        }
    }
    match frame {
        Some(i) => PhotoTarget::Frame(i),
        None => if crate::text::ends_with(path, "/source") {
            PhotoTarget::Source
        } else {
            PhotoTarget::Photo
        },
    }
}

} // verus!
