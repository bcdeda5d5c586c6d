//! The settings of a sprite-sheet import: their defaults, the targets they
//! take from a project, and the checks they must pass before a sheet is
//! cut into frames.
use vstd::prelude::*;
use vstd::string::StringExecFns;
use crate::bundle::{
    animation_ids, first_with_id, metasprite_ids, palette_ids, scene_ids, tileset_ids, ProjectBundle,
};
use crate::diagnostics::dialogue_ids;
use crate::events::DialogueGraph;
use crate::editor::{palette_index_for_rgba, palette_index_is};
use crate::events::{spec_trim, trimmed};
use crate::project::{
    AnimationFrame, AnimationResource, MetaspriteResource, PaletteResource, RgbaColor, SceneResource, SpriteTileRef,
    Tile8, TilesetResource,
};
use crate::diagnostics::lowercase_ascii;
use crate::editor::lowered;
use crate::text::{decimal, push_decimal, str_equal};
use crate::unique_ids::{holds, id_views};

verus! {

/// How a sprite sheet is cut into animation frames, and where the tiles go.
#[derive(Debug, Clone)]
pub struct SpriteSheetImport {
    pub source_path: String,
    pub base_id: String,
    pub animation_id: String,
    pub frame_width_px: u32,
    pub frame_height_px: u32,
    pub frame_count: usize,
    pub columns: usize,
    pub frame_duration: u8,
    pub target_tileset_id: String,
    pub target_palette_id: String,
}

/// Why import settings are refused.
#[derive(Debug, Clone, Copy, PartialEq, Eq, Structural)]
pub enum ImportSettingsError {
    /// The base id or the animation id is blank.
    MissingIds,
    /// A frame side is zero or not a multiple of eight pixels.
    BadFrameSize,
    /// No frames, or no columns, are asked for.
    NoFrames,
}

impl ImportSettingsError {
    /// The message shown for the error.
    pub fn message(self) -> (s: String)
        ensures
            s@ == match self {
                ImportSettingsError::MissingIds => "Base id and animation id are required."@,
                ImportSettingsError::BadFrameSize => "Frame width and height must be non-zero multiples of 8 pixels."@,
                ImportSettingsError::NoFrames => "Frame count and columns must be greater than zero."@,
            },
    {
        match self {
            ImportSettingsError::MissingIds => String::from_str("Base id and animation id are required."),
            ImportSettingsError::BadFrameSize => String::from_str(
                "Frame width and height must be non-zero multiples of 8 pixels.",
            ),
            ImportSettingsError::NoFrames => String::from_str("Frame count and columns must be greater than zero."),
        }
    }
}

/// The verdict on import settings, checked in order: ids, frame size,
/// frame count.
pub open spec fn spec_check(s: SpriteSheetImport) -> Result<(), ImportSettingsError> {
    if spec_trim(s.base_id@).len() == 0 || spec_trim(s.animation_id@).len() == 0 {
        Err(ImportSettingsError::MissingIds)
    } else if s.frame_width_px == 0 || s.frame_height_px == 0 || s.frame_width_px % 8 != 0 || s.frame_height_px % 8
        != 0 {
        Err(ImportSettingsError::BadFrameSize)
    } else if s.frame_count == 0 || s.columns == 0 {
        Err(ImportSettingsError::NoFrames)
    } else {
        Ok(())
    }
}

impl SpriteSheetImport {
    /// A single 16 by 16 frame named `player_run`, shown for eight ticks,
    /// with no source and no targets yet.
    pub fn with_defaults() -> (s: Self)
        ensures
            s.source_path@.len() == 0,
            s.base_id@ == "player_run"@,
            s.animation_id@ == "player_run"@,
            s.frame_width_px == 16 && s.frame_height_px == 16,
            s.frame_count == 1 && s.columns == 1,
            s.frame_duration == 8,
            s.target_tileset_id@.len() == 0,
            s.target_palette_id@.len() == 0,
    {
        SpriteSheetImport {
            source_path: String::new(),
            base_id: String::from_str("player_run"),
            animation_id: String::from_str("player_run"),
            frame_width_px: 16,
            frame_height_px: 16,
            frame_count: 1,
            columns: 1,
            frame_duration: 8,
            target_tileset_id: String::new(),
            target_palette_id: String::new(),
        }
    }

    /// Fills an empty target tileset or palette with the project's first
    /// one, when it has one.
    pub fn sync_to_bundle(&mut self, bundle: &ProjectBundle)
        ensures
            final(self).target_tileset_id@ == if old(self).target_tileset_id@.len() == 0
                && bundle.tilesets@.len() > 0 {
                bundle.tilesets@[0].id@
            } else {
                old(self).target_tileset_id@
            },
            final(self).target_palette_id@ == if old(self).target_palette_id@.len() == 0
                && bundle.palettes@.len() > 0 {
                bundle.palettes@[0].id@
            } else {
                old(self).target_palette_id@
            },
            final(self).source_path == old(self).source_path,
            final(self).base_id == old(self).base_id,
            final(self).animation_id == old(self).animation_id,
            final(self).frame_width_px == old(self).frame_width_px,
            final(self).frame_height_px == old(self).frame_height_px,
            final(self).frame_count == old(self).frame_count,
            final(self).columns == old(self).columns,
            final(self).frame_duration == old(self).frame_duration,
    {
        if self.target_tileset_id.unicode_len() == 0 && bundle.tilesets.len() > 0 {
            self.target_tileset_id = bundle.tilesets[0].id.clone();
        }
        if self.target_palette_id.unicode_len() == 0 && bundle.palettes.len() > 0 {
            self.target_palette_id = bundle.palettes[0].id.clone();
        }
    }

    /// Checks the settings before a sheet is cut: both ids given, frame
    /// sides non-zero multiples of eight, and at least one frame and one
    /// column.
    pub fn check(&self) -> (r: Result<(), ImportSettingsError>)
        ensures
            r == spec_check(*self),
    {
        let base = trimmed(self.base_id.as_str());
        let animation = trimmed(self.animation_id.as_str());
        if base.unicode_len() == 0 || animation.unicode_len() == 0 {
            return Err(ImportSettingsError::MissingIds);
        }
        if self.frame_width_px == 0 || self.frame_height_px == 0 || self.frame_width_px % 8 != 0
            || self.frame_height_px % 8 != 0 {
            return Err(ImportSettingsError::BadFrameSize);
        }
        if self.frame_count == 0 || self.columns == 0 {
            return Err(ImportSettingsError::NoFrames);
        }
        Ok(())
    }
}


/// Why a sprite sheet could not be imported.
#[derive(Debug, Clone, PartialEq, Eq)]
pub enum ImportError {
    /// The settings were refused.
    Settings(ImportSettingsError),
    /// The pixel buffer is smaller than the sheet.
    UndecodablePixels,
    /// The project already uses the animation id.
    AnimationIdTaken(String),
    /// No tileset has the target id.
    MissingTileset(String),
    /// No palette has the target id.
    MissingPalette(String),
    /// The id of a frame's metasprite is already used.
    MetaspriteIdTaken(String),
    /// The frame with this index reaches past the sheet.
    FrameOutsideSheet(usize),
}

/// The message shown for an import error.
pub open spec fn spec_import_message(e: ImportError) -> Seq<char> {
    match e {
        ImportError::Settings(s) => match s {
            ImportSettingsError::MissingIds => "Base id and animation id are required."@,
            ImportSettingsError::BadFrameSize => "Frame width and height must be non-zero multiples of 8 pixels."@,
            ImportSettingsError::NoFrames => "Frame count and columns must be greater than zero."@,
        },
        ImportError::UndecodablePixels => "failed to decode sprite sheet pixels"@,
        ImportError::AnimationIdTaken(id) => "Animation id '"@ + id@
            + "' already exists. Choose a unique id before importing."@,
        ImportError::MissingTileset(id) => "target tileset '"@ + id@ + "' is missing"@,
        ImportError::MissingPalette(id) => "target palette '"@ + id@ + "' is missing"@,
        ImportError::MetaspriteIdTaken(id) => "Metasprite id '"@ + id@ + "' already exists. Choose a different base id."@,
        ImportError::FrameOutsideSheet(f) => "Frame "@ + decimal(f as nat + 1)
            + " exceeds the sprite sheet bounds. Check the frame size, count, or column count."@,
    }
}

impl ImportError {
    /// The message shown for the error.
    pub fn message(&self) -> (s: String)
        ensures
            s@ == spec_import_message(*self),
    {
        match self {
            ImportError::Settings(e) => e.message(),
            ImportError::UndecodablePixels => String::from_str("failed to decode sprite sheet pixels"),
            ImportError::AnimationIdTaken(id) => {
                let mut s = String::from_str("Animation id '");
                s.append(id.as_str());
                s.append("' already exists. Choose a unique id before importing.");
                s
            },
            ImportError::MissingTileset(id) => {
                let mut s = String::from_str("target tileset '");
                s.append(id.as_str());
                s.append("' is missing");
                s
            },
            ImportError::MissingPalette(id) => {
                let mut s = String::from_str("target palette '");
                s.append(id.as_str());
                s.append("' is missing");
                s
            },
            ImportError::MetaspriteIdTaken(id) => {
                let mut s = String::from_str("Metasprite id '");
                s.append(id.as_str());
                s.append("' already exists. Choose a different base id.");
                s
            },
            ImportError::FrameOutsideSheet(f) => {
                let mut s = String::from_str("Frame ");
                push_decimal(&mut s, *f as u128 + 1);
                s.append(" exceeds the sprite sheet bounds. Check the frame size, count, or column count.");
                s
            },
        }
    }
}

/// `n` in decimal with at least two digits.
pub open spec fn padded2(n: nat) -> Seq<char> {
    if n < 10 {
        "0"@ + decimal(n)
    } else {
        decimal(n)
    }
}

/// The id of the metasprite of frame `f`: the base id for a single frame,
/// else the base id, `_` and the frame's number from one, two digits at
/// least.
pub open spec fn frame_id(s: SpriteSheetImport, f: int) -> Seq<char> {
    if s.frame_count == 1 {
        s.base_id@
    } else {
        s.base_id@ + "_"@ + padded2((f + 1) as nat)
    }
}

/// The left pixel of frame `f` in the sheet.
pub open spec fn frame_x(s: SpriteSheetImport, f: int) -> int {
    ((f % (s.columns as int)) as u32) * s.frame_width_px
}

/// The top pixel of frame `f` in the sheet.
pub open spec fn frame_y(s: SpriteSheetImport, f: int) -> int {
    ((f / (s.columns as int)) as u32) * s.frame_height_px
}

/// Frame `f` lies inside a `w` by `h` sheet.
pub open spec fn frame_inside(s: SpriteSheetImport, w: u32, h: u32, f: int) -> bool {
    frame_x(s, f) + s.frame_width_px <= w && frame_y(s, f) + s.frame_height_px <= h
}

/// The metasprite id of frame `f` is reserved, is the animation id, or is
/// that of an earlier frame.
pub open spec fn frame_id_taken(s: SpriteSheetImport, reserved: Seq<Seq<char>>, f: int) -> bool {
    reserved.contains(frame_id(s, f)) || frame_id(s, f) == s.animation_id@ || exists|g: int|
        0 <= g < f && #[trigger] frame_id(s, g) == frame_id(s, f)
}

/// The first of the first `n` frames that fails, and whether its id is
/// taken (else it reaches past the sheet).
pub open spec fn frame_failure(s: SpriteSheetImport, w: u32, h: u32, reserved: Seq<Seq<char>>, n: int) -> Option<
    (int, bool),
>
    decreases n,
{
    if n <= 0 {
        None
    } else {
        match frame_failure(s, w, h, reserved, n - 1) {
            Some(x) => Some(x),
            None => if frame_id_taken(s, reserved, n - 1) {
                Some((n - 1, true))
            } else if !frame_inside(s, w, h, n - 1) {
                Some((n - 1, false))
            } else {
                None
            },
        }
    }
}

/// The frame positions and their far edges fit 32-bit arithmetic.
pub open spec fn frames_fit_u32(s: SpriteSheetImport) -> bool {
    forall|f: int|
        0 <= f < s.frame_count ==> #[trigger] frame_x(s, f) + s.frame_width_px <= u32::MAX && frame_y(s, f)
            + s.frame_height_px <= u32::MAX
}

fn padded2_string(s: &mut String, n: usize)
    ensures
        final(s)@ == old(s)@ + padded2(n as nat),
{
    proof {
        reveal_strlit("0");
    }
    if n < 10 {
        s.append("0");
        let ghost mid = s@;
        push_decimal(s, n as u128);
        assert(s@ =~= old(s)@ + ("0"@ + decimal(n as nat)));
    } else {
        push_decimal(s, n as u128);
    }
}

/// The id of the metasprite of frame `f`.
fn frame_id_string(s: &SpriteSheetImport, f: usize) -> (r: String)
    requires
        f < usize::MAX,
    ensures
        r@ == frame_id(*s, f as int),
{
    if s.frame_count == 1 {
        return s.base_id.clone();
    }
    let mut r = s.base_id.clone();
    r.append("_");
    let ghost mid = r@;
    padded2_string(&mut r, f + 1);
    assert(r@ =~= s.base_id@ + "_"@ + padded2((f + 1) as nat));
    r
}

proof fn lemma_failure_stays(s: SpriteSheetImport, w: u32, h: u32, res: Seq<Seq<char>>, n: int, m: int)
    requires
        n <= m,
        frame_failure(s, w, h, res, n) is Some,
    ensures
        frame_failure(s, w, h, res, m) == frame_failure(s, w, h, res, n),
    decreases m - n,
{
    if n < m {
        lemma_failure_stays(s, w, h, res, n, m - 1);
    }
}

proof fn lemma_failure_in_range(s: SpriteSheetImport, w: u32, h: u32, res: Seq<Seq<char>>, n: int)
    ensures
        frame_failure(s, w, h, res, n) matches Some((f, _)) ==> 0 <= f < n,
    decreases n,
{
    if n > 0 {
        lemma_failure_in_range(s, w, h, res, n - 1);
    }
}

/// Checks every frame in order: its metasprite id must be free and it must
/// lie inside the sheet. The first failing frame and whether its id was
/// taken.
fn check_frames(s: &SpriteSheetImport, w: u32, h: u32, reserved: &Vec<String>) -> (r: Option<(usize, bool)>)
    requires
        frames_fit_u32(*s),
        s.columns > 0,
        s.frame_count < usize::MAX,
    ensures
        match frame_failure(*s, w, h, id_views(reserved@), s.frame_count as int) {
            Some((f, taken)) => r == Some((f as usize, taken)),
            None => r is None,
        },
        r matches Some((f, _)) ==> f < s.frame_count,
{
    let mut taken: Vec<String> = Vec::new();
    let mut i: usize = 0;
    while i < reserved.len()
        invariant
            i <= reserved@.len(),
            id_views(taken@) == id_views(reserved@).take(i as int),
        decreases reserved@.len() - i,
    {
        let ghost prev = id_views(taken@);
        taken.push(reserved[i].clone());
        proof {
            assert(id_views(taken@) =~= prev.push(reserved@[i as int]@));
            assert(id_views(reserved@).take(i + 1) =~= id_views(reserved@).take(i as int).push(
                id_views(reserved@)[i as int],
            ));
        }
        i = i + 1;
    }
    assert(id_views(reserved@).take(i as int) =~= id_views(reserved@));
    let ghost res = id_views(reserved@);
    let ghost base = id_views(taken@);
    taken.push(s.animation_id.clone());
    assert(id_views(taken@) =~= base.push(s.animation_id@));
    let mut f: usize = 0;
    while f < s.frame_count
        invariant
            frames_fit_u32(*s),
            s.columns > 0,
            s.frame_count < usize::MAX,
            res == id_views(reserved@),
            f <= s.frame_count,
            frame_failure(*s, w, h, res, f as int) is None,
            id_views(taken@) == res.push(s.animation_id@) + Seq::new(f as nat, |g: int| frame_id(*s, g)),
        decreases s.frame_count - f,
    {
        let id = frame_id_string(s, f);
        let hit = holds(&taken, id.as_str());
        proof {
            let fixed = res.push(s.animation_id@);
            let earlier = Seq::new(f as nat, |g: int| frame_id(*s, g));
            assert(hit == frame_id_taken(*s, res, f as int)) by {
                if hit {
                    let k = choose|k: int| 0 <= k < id_views(taken@).len() && id_views(taken@)[k] == id@;
                    if k < res.len() {
                        assert(res[k] == id@);
                    } else if k == res.len() {
                        assert(fixed[k] == s.animation_id@);
                    } else {
                        assert(earlier[k - fixed.len()] == id@);
                        assert(frame_id(*s, k - fixed.len()) == frame_id(*s, f as int));
                    }
                }
                if frame_id_taken(*s, res, f as int) {
                    if res.contains(id@) {
                        let k = choose|k: int| 0 <= k < res.len() && res[k] == id@;
                        assert(id_views(taken@)[k] == id@);
                    } else if id@ == s.animation_id@ {
                        assert(id_views(taken@)[res.len() as int] == id@);
                    } else {
                        let g = choose|g: int| 0 <= g < f && #[trigger] frame_id(*s, g) == frame_id(*s, f as int);
                        assert(id_views(taken@)[fixed.len() + g] == earlier[g]);
                    }
                }
            }
        }
        if hit {
            proof {
                lemma_failure_stays(*s, w, h, res, f + 1, s.frame_count as int);
            }
            return Some((f, true));
        }
        assert(frame_x(*s, f as int) + s.frame_width_px <= u32::MAX);
        assert(frame_y(*s, f as int) + s.frame_height_px <= u32::MAX);
        let frame_x_pos = (f % s.columns) as u32 * s.frame_width_px;
        let frame_y_pos = (f / s.columns) as u32 * s.frame_height_px;
        assert(frame_x_pos == frame_x(*s, f as int));
        assert(frame_y_pos == frame_y(*s, f as int));
        if frame_x_pos + s.frame_width_px > w || frame_y_pos + s.frame_height_px > h {
            proof {
                lemma_failure_stays(*s, w, h, res, f + 1, s.frame_count as int);
            }
            return Some((f, false));
        }
        let ghost prev = id_views(taken@);
        taken.push(id);
        proof {
            let earlier = Seq::new(f as nat, |g: int| frame_id(*s, g));
            let later = Seq::new((f + 1) as nat, |g: int| frame_id(*s, g));
            assert(id_views(taken@) =~= prev.push(frame_id(*s, f as int)));
            assert(later =~= earlier.push(frame_id(*s, f as int)));
            assert(res.push(s.animation_id@) + later =~= (res.push(s.animation_id@) + earlier).push(
                frame_id(*s, f as int),
            ));
        }
        f = f + 1;
    }
    None
}


/// Tiles across a frame.
pub open spec fn tiles_x(s: SpriteSheetImport) -> int {
    (s.frame_width_px / 8) as int
}

/// Tiles in a frame.
pub open spec fn tiles_per_frame(s: SpriteSheetImport) -> int {
    (s.frame_width_px / 8) * (s.frame_height_px / 8)
}

/// The sheet position of pixel `k` in import order: frame after frame,
/// each frame's tiles row after row, each tile's pixels row after row.
pub open spec fn pixel_xy(s: SpriteSheetImport, k: int) -> (int, int) {
    let tpf = tiles_per_frame(s);
    let f = k / (tpf * 64);
    let t = (k / 64) % tpf;
    let p = k % 64;
    (frame_x(s, f) + (t % tiles_x(s)) * 8 + p % 8, frame_y(s, f) + (t / tiles_x(s)) * 8 + p / 8)
}

/// The RGBA bytes of pixel `k` of a sheet `w` pixels wide.
pub open spec fn sheet_pixel(s: SpriteSheetImport, bytes: Seq<u8>, w: u32, k: int) -> Seq<u8> {
    let i = (pixel_xy(s, k).1 * w + pixel_xy(s, k).0) * 4;
    bytes.subrange(i, i + 4)
}

/// Mapping the first `n` pixels in order to palette indices takes the
/// palette's colors from `before` to `after` and gives `idx`.
pub open spec fn pixels_mapped(
    s: SpriteSheetImport,
    bytes: Seq<u8>,
    w: u32,
    n: int,
    before: Seq<RgbaColor>,
    after: Seq<RgbaColor>,
    idx: Seq<u8>,
) -> bool {
    exists|states: Seq<Seq<RgbaColor>>|
        #![trigger states.len()]
        {
            &&& states.len() == n + 1
            &&& states[0] == before
            &&& states[n] == after
            &&& idx.len() == n
            &&& forall|k: int|
                0 <= k < n ==> palette_index_is(states[k], #[trigger] states[k + 1], sheet_pixel(s, bytes, w, k), idx[k])
        }
}

/// Every frame lies inside the sheet.
pub open spec fn frames_inside(s: SpriteSheetImport, w: u32, h: u32) -> bool {
    forall|f: int| 0 <= f < s.frame_count ==> #[trigger] frame_inside(s, w, h, f)
}

proof fn lemma_no_failure_inside(s: SpriteSheetImport, w: u32, h: u32, res: Seq<Seq<char>>, n: int)
    requires
        frame_failure(s, w, h, res, n) is None,
    ensures
        forall|f: int| 0 <= f < n ==> #[trigger] frame_inside(s, w, h, f),
    decreases n,
{
    if n > 0 {
        lemma_no_failure_inside(s, w, h, res, n - 1);
    }
}

/// Pixel `k` of the import order lies inside the sheet.
proof fn lemma_pixel_inside(s: SpriteSheetImport, w: u32, h: u32, k: int)
    requires
        frames_inside(s, w, h),
        s.frame_width_px > 0 && s.frame_width_px % 8 == 0,
        s.frame_height_px > 0 && s.frame_height_px % 8 == 0,
        s.columns > 0,
        0 <= k < s.frame_count * tiles_per_frame(s) * 64,
    ensures
        0 <= pixel_xy(s, k).0 < w,
        0 <= pixel_xy(s, k).1 < h,
        k / (tiles_per_frame(s) * 64) < s.frame_count,
{
    let tx = (s.frame_width_px / 8) as int;
    let ty = (s.frame_height_px / 8) as int;
    let tpf = tiles_per_frame(s);
    assert(tx >= 1 && ty >= 1);
    assert(tpf >= 1) by (nonlinear_arith)
        requires
            tpf == tx * ty,
            tx >= 1,
            ty >= 1,
    ;
    let f = k / (tpf * 64);
    let t = (k / 64) % tpf;
    let p = k % 64;
    assert(0 <= f < s.frame_count) by (nonlinear_arith)
        requires
            0 <= k < s.frame_count * tpf * 64,
            tpf >= 1,
            f == k / (tpf * 64),
    ;
    assert(frame_inside(s, w, h, f));
    assert(0 <= t < tpf && 0 <= p < 64);
    assert(0 <= t % tx < tx);
    assert(0 <= t / tx < ty) by (nonlinear_arith)
        requires
            0 <= t < tx * ty,
            tx >= 1,
    ;
    assert((t % tx) * 8 + p % 8 < s.frame_width_px) by (nonlinear_arith)
        requires
            0 <= t % tx < tx,
            0 <= p % 8 < 8,
            s.frame_width_px == 8 * tx,
    ;
    assert((t / tx) * 8 + p / 8 < s.frame_height_px) by (nonlinear_arith)
        requires
            0 <= t / tx < ty,
            0 <= p / 8 < 8,
            s.frame_height_px == 8 * ty,
    ;
    assert(frame_x(s, f) >= 0 && frame_y(s, f) >= 0) by (nonlinear_arith)
        requires
            frame_x(s, f) == ((f % (s.columns as int)) as u32) * s.frame_width_px,
            frame_y(s, f) == ((f / (s.columns as int)) as u32) * s.frame_height_px,
    ;
}

/// Maps every pixel of the frames, in import order, to an index of the
/// palette, adding colors to it as they come.
fn map_pixels(s: &SpriteSheetImport, bytes: &Vec<u8>, w: u32, h: u32, palette: &mut PaletteResource) -> (idx: Vec<u8>)
    requires
        frames_inside(*s, w, h),
        frames_fit_u32(*s),
        s.frame_width_px > 0 && s.frame_width_px % 8 == 0,
        s.frame_height_px > 0 && s.frame_height_px % 8 == 0,
        s.columns > 0,
        s.frame_count * tiles_per_frame(*s) * 64 <= usize::MAX,
        w * h * 4 <= bytes@.len(),
    ensures
        final(palette).id == old(palette).id,
        pixels_mapped(
            *s,
            bytes@,
            w,
            s.frame_count * tiles_per_frame(*s) * 64,
            old(palette).colors@,
            final(palette).colors@,
            idx@,
        ),
{
    if s.frame_count == 0 {
        let idx: Vec<u8> = Vec::new();
        proof {
            let states = seq![palette.colors@];
            assert(states.len() == 0 + 1);
            assert(s.frame_count * tiles_per_frame(*s) * 64 == 0);
        }
        return idx;
    }
    let tx = s.frame_width_px / 8;
    let ty = s.frame_height_px / 8;
    assert(tx as int * ty as int == tiles_per_frame(*s));
    assert(tx as int * ty as int * 64 <= s.frame_count * tiles_per_frame(*s) * 64) by (nonlinear_arith)
        requires
            tx as int * ty as int == tiles_per_frame(*s),
            s.frame_count >= 1,
            tx >= 0,
            ty >= 0,
    ;
    let tpf: usize = (tx as usize) * (ty as usize);
    let total: usize = s.frame_count * tpf * 64;
    let n_bytes = bytes.len();
    let ghost before = palette.colors@;
    let ghost mut states: Seq<Seq<RgbaColor>> = seq![palette.colors@];
    let mut idx: Vec<u8> = Vec::new();
    let mut k: usize = 0;
    while k < total
        invariant
            frames_inside(*s, w, h),
            frames_fit_u32(*s),
            s.frame_width_px > 0 && s.frame_width_px % 8 == 0,
            s.frame_height_px > 0 && s.frame_height_px % 8 == 0,
            s.columns > 0,
            tx == s.frame_width_px / 8,
            tpf == tiles_per_frame(*s),
            tpf * 64 <= usize::MAX,
            total == s.frame_count * tiles_per_frame(*s) * 64,
            w * h * 4 <= bytes@.len(),
            n_bytes == bytes@.len(),
            k <= total,
            palette.id == old(palette).id,
            states.len() == k + 1,
            states[0] == before,
            states[k as int] == palette.colors@,
            idx@.len() == k,
            forall|j: int|
                0 <= j < k ==> palette_index_is(
                    states[j],
                    #[trigger] states[j + 1],
                    sheet_pixel(*s, bytes@, w, j),
                    idx@[j],
                ),
        decreases total - k,
    {
        proof {
            lemma_pixel_inside(*s, w, h, k as int);
        }
        let f = k / (tpf * 64);
        let t = (k / 64) % tpf;
        let p = k % 64;
        assert(frame_x(*s, f as int) + s.frame_width_px <= u32::MAX);
        assert(frame_y(*s, f as int) + s.frame_height_px <= u32::MAX);
        let fx = (f % s.columns) as u32 * s.frame_width_px;
        let fy = (f / s.columns) as u32 * s.frame_height_px;
        let x = fx + ((t % (tx as usize)) * 8 + p % 8) as u32;
        let y = fy + ((t / (tx as usize)) * 8 + p / 8) as u32;
        assert(x as int == pixel_xy(*s, k as int).0 && y as int == pixel_xy(*s, k as int).1);
        assert((y as int) * (w as int) + (x as int) < (w as int) * (h as int)) by (nonlinear_arith)
            requires
                x < w,
                y < h,
        ;
        let i = ((y as usize) * (w as usize) + (x as usize)) * 4;
        let px: [u8; 4] = [bytes[i], bytes[i + 1], bytes[i + 2], bytes[i + 3]];
        assert(px@ =~= sheet_pixel(*s, bytes@, w, k as int));
        let v = palette_index_for_rgba(palette, px);
        idx.push(v);
        proof {
            states = states.push(palette.colors@);
            assert(states[k as int + 1] == palette.colors@);
        }
        k = k + 1;
    }
    proof {
        assert(states.len() == total + 1);
    }
    idx
}


/// The tiles cut from `n` runs of sixty-four indices.
fn cut_tiles(idx: &Vec<u8>, n: usize) -> (tiles: Vec<Tile8>)
    requires
        n * 64 <= idx@.len(),
    ensures
        tiles@.len() == n,
        forall|j: int| 0 <= j < n ==> (#[trigger] tiles@[j]).pixels@ == idx@.subrange(j * 64, j * 64 + 64),
{
    let total = idx.len();
    let mut tiles: Vec<Tile8> = Vec::new();
    let mut j: usize = 0;
    while j < n
        invariant
            total == idx@.len(),
            n * 64 <= idx@.len(),
            j <= n,
            tiles@.len() == j,
            forall|q: int| 0 <= q < j ==> (#[trigger] tiles@[q]).pixels@ == idx@.subrange(q * 64, q * 64 + 64),
        decreases n - j,
    {
        assert(j * 64 + 64 <= n * 64) by (nonlinear_arith)
            requires
                j < n,
        ;
        let mut pixels: Vec<u8> = Vec::new();
        let mut q: usize = 0;
        while q < 64
            invariant
                j < n,
                j * 64 + 64 <= n * 64,
                total == idx@.len(),
                n * 64 <= idx@.len(),
                q <= 64,
                pixels@ == idx@.subrange(j * 64, j * 64 + q),
            decreases 64 - q,
        {
            pixels.push(idx[j * 64 + q]);
            assert(pixels@ =~= idx@.subrange(j * 64, j * 64 + q + 1));
            q = q + 1;
        }
        tiles.push(Tile8 { pixels });
        j = j + 1;
    }
    tiles
}

/// Piece `t` of frame `f`'s metasprite, whose tiles follow `first_tile`.
pub open spec fn piece_of(s: SpriteSheetImport, first_tile: int, f: int, t: int) -> SpriteTileRef {
    SpriteTileRef {
        tile_index: (first_tile + f * tiles_per_frame(s) + t) as u16,
        x: ((t % tiles_x(s)) * 8) as i16,
        y: ((t / tiles_x(s)) * 8) as i16,
        palette_slot: 0,
        h_flip: false,
        v_flip: false,
    }
}

/// The pieces of frame `f`'s metasprite: its tiles row after row, the
/// first of them at `first_tile + f * tiles_per_frame`.
fn frame_pieces(s: &SpriteSheetImport, first_tile: usize, f: usize) -> (pieces: Vec<SpriteTileRef>)
    requires
        s.frame_width_px > 0 && s.frame_width_px % 8 == 0,
        f < s.frame_count,
        tiles_per_frame(*s) * 64 <= usize::MAX,
        first_tile + s.frame_count * tiles_per_frame(*s) <= usize::MAX,
    ensures
        pieces@.len() == tiles_per_frame(*s),
        forall|q: int|
            0 <= q < tiles_per_frame(*s) ==> #[trigger] pieces@[q] == piece_of(*s, first_tile as int, f as int, q),
{
    let tx: usize = (s.frame_width_px / 8) as usize;
    let ty: usize = (s.frame_height_px / 8) as usize;
    assert(tx as int * ty as int == tiles_per_frame(*s));
    let tpf: usize = tx * ty;
    assert(f * tpf + tpf <= s.frame_count * tpf) by (nonlinear_arith)
        requires
            f < s.frame_count,
    ;
    let mut pieces: Vec<SpriteTileRef> = Vec::new();
    let mut q: usize = 0;
    while q < tpf
        invariant
            tx >= 1,
            tx as int == tiles_x(*s),
            tx * 8 == s.frame_width_px,
            tpf == tiles_per_frame(*s),
            tpf * 64 <= usize::MAX,
            first_tile + s.frame_count * tpf <= usize::MAX,
            f * tpf + tpf <= s.frame_count * tpf,
            q <= tpf,
            pieces@.len() == q,
            forall|r: int| 0 <= r < q ==> #[trigger] pieces@[r] == piece_of(*s, first_tile as int, f as int, r),
        decreases tpf - q,
    {
        assert(q / tx <= q) by (nonlinear_arith)
            requires
                tx >= 1,
        ;
        let piece = SpriteTileRef {
            tile_index: (first_tile + f * tpf + q) as u16,
            x: ((q % tx) * 8) as i16,
            y: ((q / tx) * 8) as i16,
            palette_slot: 0,
            h_flip: false,
            v_flip: false,
        };
        pieces.push(piece);
        q = q + 1;
    }
    pieces
}

/// Appends one metasprite per frame, in frame order, and gives the
/// animation frames that show them.
fn add_frame_metasprites(
    metasprites: &mut Vec<MetaspriteResource>,
    s: &SpriteSheetImport,
    first_tile: usize,
    palette_id: &String,
) -> (frames: Vec<AnimationFrame>)
    requires
        s.frame_width_px > 0 && s.frame_width_px % 8 == 0,
        s.frame_count < usize::MAX,
        tiles_per_frame(*s) * 64 <= usize::MAX,
        first_tile + s.frame_count * tiles_per_frame(*s) <= usize::MAX,
    ensures
        final(metasprites)@.len() == old(metasprites)@.len() + s.frame_count,
        final(metasprites)@.take(old(metasprites)@.len() as int) == old(metasprites)@,
        forall|f: int|
            0 <= f < s.frame_count ==> {
                let m = #[trigger] final(metasprites)@[old(metasprites)@.len() + f];
                &&& m.id@ == frame_id(*s, f)
                &&& m.palette_id@ == palette_id@
                &&& m.pieces@.len() == tiles_per_frame(*s)
                &&& forall|q: int|
                    0 <= q < tiles_per_frame(*s) ==> #[trigger] m.pieces@[q] == piece_of(*s, first_tile as int, f, q)
            },
        frames@.len() == s.frame_count,
        forall|f: int|
            0 <= f < s.frame_count ==> (#[trigger] frames@[f]).metasprite_id@ == frame_id(*s, f)
                && frames@[f].duration_frames == frame_ticks(*s),
{
    let ghost m0 = old(metasprites)@.len() as int;
    let mut frames: Vec<AnimationFrame> = Vec::new();
    let ticks: u16 = if s.frame_duration > 1 { s.frame_duration as u16 } else { 1 };
    let mut f: usize = 0;
    while f < s.frame_count
        invariant
            s.frame_width_px > 0 && s.frame_width_px % 8 == 0,
            s.frame_count < usize::MAX,
            tiles_per_frame(*s) * 64 <= usize::MAX,
            first_tile + s.frame_count * tiles_per_frame(*s) <= usize::MAX,
            ticks == frame_ticks(*s),
            f <= s.frame_count,
            m0 == old(metasprites)@.len(),
            metasprites@.len() == m0 + f,
            metasprites@.take(m0) == old(metasprites)@,
            frames@.len() == f,
            forall|g: int|
                0 <= g < f ==> {
                    let m = #[trigger] metasprites@[m0 + g];
                    &&& m.id@ == frame_id(*s, g)
                    &&& m.palette_id@ == palette_id@
                    &&& m.pieces@.len() == tiles_per_frame(*s)
                    &&& forall|q: int|
                        0 <= q < tiles_per_frame(*s) ==> #[trigger] m.pieces@[q] == piece_of(*s, first_tile as int, g, q)
                },
            forall|g: int|
                0 <= g < f ==> (#[trigger] frames@[g]).metasprite_id@ == frame_id(*s, g) && frames@[g].duration_frames
                    == frame_ticks(*s),
        decreases s.frame_count - f,
    {
        let pieces = frame_pieces(s, first_tile, f);
        let id = frame_id_string(s, f);
        let frame_name = frame_id_string(s, f);
        let ghost prev = metasprites@;
        let ghost prev_frames = frames@;
        let pal = palette_id.clone();
        let m = MetaspriteResource { id, palette_id: pal, pieces };
        metasprites.push(m);
        frames.push(AnimationFrame { metasprite_id: frame_name, duration_frames: ticks });
        proof {
            assert(metasprites@ == prev.push(m));
            assert(metasprites@.take(m0) =~= prev.take(m0));
            assert(metasprites@[m0 + f] == m);
            assert forall|g: int| 0 <= g < f implies #[trigger] metasprites@[m0 + g] == prev[m0 + g] by {}
            assert forall|g: int| 0 <= g < f implies #[trigger] frames@[g] == prev_frames[g] by {}
        }
        f = f + 1;
    }
    frames
}

/// How many ticks each imported frame lasts: at least one.
pub open spec fn frame_ticks(s: SpriteSheetImport) -> u16 {
    (if s.frame_duration > 1 { s.frame_duration } else { 1 }) as u16
}

/// Apart from palette `p` and tileset `t`, whose ids stay, the metasprites
/// and the animations, the project is as it was.
pub open spec fn others_kept(o: ProjectBundle, b: ProjectBundle, p: int, t: int) -> bool {
    &&& b.manifest == o.manifest && b.scenes == o.scenes && b.dialogues == o.dialogues
    &&& b.palettes@.len() == o.palettes@.len() && b.palettes@[p].id == o.palettes@[p].id
    &&& forall|j: int| 0 <= j < o.palettes@.len() && j != p ==> b.palettes@[j] == o.palettes@[j]
    &&& b.tilesets@.len() == o.tilesets@.len()
    &&& forall|j: int| 0 <= j < o.tilesets@.len() && j != t ==> b.tilesets@[j] == o.tilesets@[j]
    &&& b.tilesets@[t].id == o.tilesets@[t].id && b.tilesets@[t].palette_id == o.tilesets@[t].palette_id
    &&& b.tilesets@[t].name == o.tilesets@[t].name
}

/// Tileset `t` has the frames' tiles appended, in import order, their
/// pixels mapped to indices of palette `p`, which gained the new colors.
pub open spec fn tiles_added(
    o: ProjectBundle,
    b: ProjectBundle,
    s: SpriteSheetImport,
    bytes: Seq<u8>,
    w: u32,
    p: int,
    t: int,
) -> bool {
    let n_tiles = s.frame_count * tiles_per_frame(s);
    let old_tiles = o.tilesets@[t].tiles@;
    let new_tiles = b.tilesets@[t].tiles@;
    &&& new_tiles.len() == old_tiles.len() + n_tiles && new_tiles.take(old_tiles.len() as int) == old_tiles
    &&& exists|idx: Seq<u8>|
        #[trigger] pixels_mapped(s, bytes, w, n_tiles * 64, o.palettes@[p].colors@, b.palettes@[p].colors@, idx)
            && forall|j: int|
            0 <= j < n_tiles ==> (#[trigger] new_tiles[old_tiles.len() + j]).pixels@ == idx.subrange(j * 64, j * 64 + 64)
}

/// One metasprite per frame is appended, drawn with palette `p` from the
/// tiles appended to tileset `t`, and one animation that shows them.
pub open spec fn frames_added(o: ProjectBundle, b: ProjectBundle, s: SpriteSheetImport, p: int, t: int) -> bool {
    let first_tile = o.tilesets@[t].tiles@.len() as int;
    let m0 = o.metasprites@.len() as int;
    let a0 = o.animations@.len() as int;
    &&& b.metasprites@.len() == m0 + s.frame_count && b.metasprites@.take(m0) == o.metasprites@
    &&& forall|f: int|
        0 <= f < s.frame_count ==> {
            let m = #[trigger] b.metasprites@[m0 + f];
            &&& m.id@ == frame_id(s, f)
            &&& m.palette_id@ == o.palettes@[p].id@
            &&& m.pieces@.len() == tiles_per_frame(s)
            &&& forall|q: int| 0 <= q < tiles_per_frame(s) ==> #[trigger] m.pieces@[q] == piece_of(s, first_tile, f, q)
        }
    &&& b.animations@.len() == a0 + 1 && b.animations@.take(a0) == o.animations@
    &&& b.animations@[a0].id == s.animation_id
    &&& b.animations@[a0].frames@.len() == s.frame_count
    &&& forall|f: int|
        0 <= f < s.frame_count ==> (#[trigger] b.animations@[a0].frames@[f]).metasprite_id@ == frame_id(s, f)
            && b.animations@[a0].frames@[f].duration_frames == frame_ticks(s)
}

/// The project after an import that passed every check, into the first
/// palette and the first tileset with the target ids.
pub open spec fn imported(o: ProjectBundle, b: ProjectBundle, s: SpriteSheetImport, bytes: Seq<u8>, w: u32) -> bool {
    let p = first_with_id(palette_ids(o.palettes@), s.target_palette_id@)->0;
    let t = first_with_id(tileset_ids(o.tilesets@), s.target_tileset_id@)->0;
    &&& others_kept(o, b, p, t)
    &&& tiles_added(o, b, s, bytes, w, p, t)
    &&& frames_added(o, b, s, p, t)
}

/// The summary shown after an import.
pub open spec fn spec_import_summary(s: SpriteSheetImport) -> Seq<char> {
    "Imported "@ + decimal(s.frame_count as nat) + " frame(s) into '"@ + s.target_tileset_id@ + "' and created animation '"@
        + s.animation_id@ + "'"@
}

/// What an import with ids `reserved` already in use gives, checked in
/// order: the settings, the pixel buffer, the animation id, the target
/// tileset and palette, then each frame's metasprite id and bounds. On any
/// error the project `o` is left as it was; else `b` is `o` with the sheet
/// imported.
pub open spec fn import_outcome(
    o: ProjectBundle,
    b: ProjectBundle,
    s: SpriteSheetImport,
    bytes: Seq<u8>,
    w: u32,
    h: u32,
    reserved: Seq<Seq<char>>,
    r: Result<String, ImportError>,
) -> bool {
    &&& r is Err ==> b == o
    &&& match spec_check(s) {
        Err(e) => r == Err::<String, ImportError>(ImportError::Settings(e)),
        Ok(_) => if bytes.len() < w * h * 4 {
            r == Err::<String, ImportError>(ImportError::UndecodablePixels)
        } else if reserved.contains(s.animation_id@) {
            r matches Err(ImportError::AnimationIdTaken(x)) && x@ == s.animation_id@
        } else if first_with_id(tileset_ids(o.tilesets@), s.target_tileset_id@) is None {
            r matches Err(ImportError::MissingTileset(x)) && x@ == s.target_tileset_id@
        } else if first_with_id(palette_ids(o.palettes@), s.target_palette_id@) is None {
            r matches Err(ImportError::MissingPalette(x)) && x@ == s.target_palette_id@
        } else {
            match frame_failure(s, w, h, reserved.push(s.animation_id@), s.frame_count as int) {
                Some((f, true)) => r matches Err(ImportError::MetaspriteIdTaken(x)) && x@ == frame_id(s, f),
                Some((f, false)) => r == Err::<String, ImportError>(ImportError::FrameOutsideSheet(f as usize)),
                None => r matches Ok(summary) && summary@ == spec_import_summary(s) && imported(o, b, s, bytes, w),
            }
        },
    }
}

/// Cuts a sprite sheet, given as RGBA bytes `w` pixels wide and `h` high,
/// into the frames the settings describe: each frame's 8 by 8 tiles go to
/// the end of the target tileset, their colors mapped into the target
/// palette; each frame gets a metasprite, and the frames together an
/// animation. `reserved` holds the ids the project already uses. On any
/// error the project is left as it was.
#[verifier::spinoff_prover]
#[verifier::rlimit(60)]
pub fn import_sprite_sheet(
    bundle: &mut ProjectBundle,
    s: &SpriteSheetImport,
    bytes: &Vec<u8>,
    w: u32,
    h: u32,
    reserved: &Vec<String>,
) -> (r: Result<String, ImportError>)
    requires
        frames_fit_u32(*s),
        s.frame_count < usize::MAX,
        s.frame_count * tiles_per_frame(*s) * 64 <= usize::MAX,
        first_with_id(tileset_ids(old(bundle).tilesets@), s.target_tileset_id@) matches Some(t)
            ==> old(bundle).tilesets@[t].tiles@.len() + s.frame_count * tiles_per_frame(*s) <= usize::MAX,
    ensures
        import_outcome(*old(bundle), *final(bundle), *s, bytes@, w, h, id_views(reserved@), r),
{
    match s.check() {
        Err(e) => {
            return Err(ImportError::Settings(e));
        },
        Ok(_) => {},
    }
    assert((w as int) * (h as int) * 4 <= 0x4_0000_0000_0000_0000) by (nonlinear_arith)
        requires
            w <= u32::MAX,
            h <= u32::MAX,
    ;
    let area: u128 = (w as u128) * (h as u128);
    if (bytes.len() as u128) < area * 4 {
        return Err(ImportError::UndecodablePixels);
    }
    if holds(reserved, s.animation_id.as_str()) {
        return Err(ImportError::AnimationIdTaken(s.animation_id.clone()));
    }
    let t = match bundle.tileset_index(s.target_tileset_id.as_str()) {
        Some(t) => t,
        None => {
            return Err(ImportError::MissingTileset(s.target_tileset_id.clone()));
        },
    };
    let p = match bundle.palette_index(s.target_palette_id.as_str()) {
        Some(p) => p,
        None => {
            return Err(ImportError::MissingPalette(s.target_palette_id.clone()));
        },
    };
    let mut taken: Vec<String> = Vec::new();
    let mut i: usize = 0;
    while i < reserved.len()
        invariant
            i <= reserved@.len(),
            id_views(taken@) == id_views(reserved@).take(i as int),
        decreases reserved@.len() - i,
    {
        let ghost prev = id_views(taken@);
        taken.push(reserved[i].clone());
        proof {
            assert(id_views(taken@) =~= prev.push(reserved@[i as int]@));
            assert(id_views(reserved@).take(i + 1) =~= id_views(reserved@).take(i as int).push(
                id_views(reserved@)[i as int],
            ));
        }
        i = i + 1;
    }
    assert(id_views(reserved@).take(i as int) =~= id_views(reserved@));
    let ghost prev_taken = id_views(taken@);
    taken.push(s.animation_id.clone());
    assert(id_views(taken@) =~= prev_taken.push(s.animation_id@));
    proof {
        lemma_failure_in_range(*s, w, h, id_views(taken@), s.frame_count as int);
    }
    match check_frames(s, w, h, &taken) {
        Some((f, true)) => {
            return Err(ImportError::MetaspriteIdTaken(frame_id_string(s, f)));
        },
        Some((f, false)) => {
            return Err(ImportError::FrameOutsideSheet(f));
        },
        None => {},
    }
    proof {
        lemma_no_failure_inside(*s, w, h, id_views(taken@), s.frame_count as int);
    }
    let ghost o = *bundle;
    let tx = s.frame_width_px / 8;
    let ty = s.frame_height_px / 8;
    assert(tx as int * ty as int == tiles_per_frame(*s));
    assert(s.frame_count * tiles_per_frame(*s) <= s.frame_count * tiles_per_frame(*s) * 64) by (nonlinear_arith)
        requires
            tiles_per_frame(*s) >= 0,
    ;
    assert(tiles_per_frame(*s) <= s.frame_count * tiles_per_frame(*s)) by (nonlinear_arith)
        requires
            tiles_per_frame(*s) >= 0,
            s.frame_count >= 1,
    ;
    let tpf: usize = (tx as usize) * (ty as usize);
    let n_tiles: usize = s.frame_count * tpf;
    // the palette and the tileset are taken out, extended, and put back
    let mut palettes: Vec<PaletteResource> = Vec::new();
    std::mem::swap(&mut palettes, &mut bundle.palettes);
    let ghost pal_before = palettes@;
    let mut palette = palettes.remove(p);
    let idx = map_pixels(s, bytes, w, h, &mut palette);
    let palette_id = palette.id.clone();
    palettes.insert(p, palette);
    std::mem::swap(&mut palettes, &mut bundle.palettes);
    let mut tilesets: Vec<crate::project::TilesetResource> = Vec::new();
    std::mem::swap(&mut tilesets, &mut bundle.tilesets);
    let ghost sets_before = tilesets@;
    let mut tileset = tilesets.remove(t);
    let first_tile = tileset.tiles.len();
    let ghost old_tiles = tileset.tiles@;
    let mut new_tiles = cut_tiles(&idx, n_tiles);
    let ghost cut = new_tiles@;
    tileset.tiles.append(&mut new_tiles);
    assert(tileset.tiles@.take(old_tiles.len() as int) =~= old_tiles);
    tilesets.insert(t, tileset);
    std::mem::swap(&mut tilesets, &mut bundle.tilesets);
    let ghost m0 = bundle.metasprites@.len() as int;
    let frames = add_frame_metasprites(&mut bundle.metasprites, s, first_tile, &palette_id);
    let ghost a0 = bundle.animations@.len() as int;
    let ghost prev_anims = bundle.animations@;
    bundle.animations.push(AnimationResource { id: s.animation_id.clone(), frames });
    assert(bundle.animations@.take(a0) =~= prev_anims);
    let mut summary = String::from_str("Imported ");
    push_decimal(&mut summary, s.frame_count as u128);
    summary.append(" frame(s) into '");
    summary.append(s.target_tileset_id.as_str());
    summary.append("' and created animation '");
    summary.append(s.animation_id.as_str());
    summary.append("'");
    proof {
        assert forall|jj: int| 0 <= jj < o.palettes@.len() && jj != p implies bundle.palettes@[jj] == o.palettes@[jj] by {
            if jj < p {
                assert(pal_before.remove(p as int)[jj] == pal_before[jj]);
            } else {
                assert(pal_before.remove(p as int)[jj - 1] == pal_before[jj]);
            }
        }
        assert forall|jj: int| 0 <= jj < o.tilesets@.len() && jj != t implies bundle.tilesets@[jj] == o.tilesets@[jj] by {
            if jj < t {
                assert(sets_before.remove(t as int)[jj] == sets_before[jj]);
            } else {
                assert(sets_before.remove(t as int)[jj - 1] == sets_before[jj]);
            }
        }
        let nt = s.frame_count * tiles_per_frame(*s);
        assert(nt == n_tiles);
        assert forall|jj: int| 0 <= jj < nt implies (#[trigger] bundle.tilesets@[t as int].tiles@[old_tiles.len() + jj]).pixels@
            == idx@.subrange(jj * 64, jj * 64 + 64) by {
            assert(bundle.tilesets@[t as int].tiles@[old_tiles.len() + jj] == cut[jj]);
        }
        let b = *bundle;
        assert(others_kept(o, b, p as int, t as int));
        assert(tiles_added(o, b, *s, bytes@, w, p as int, t as int)) by {
            assert(pixels_mapped(*s, bytes@, w, nt * 64, o.palettes@[p as int].colors@, b.palettes@[p as int].colors@, idx@));
        }
        assert(frames_added(o, b, *s, p as int, t as int));
        assert(summary@ == spec_import_summary(*s));
        assert(imported(o, b, *s, bytes@, w));
    }
    Ok(summary)
}


/// The text of an optional string.
pub open spec fn opt_view(o: Option<&str>) -> Option<Seq<char>> {
    match o {
        Some(s) => Some(s@),
        None => None,
    }
}

/// The ids a sheet's file name seeds: the slug of its stem, or
/// `imported_sprite` when it has none.
pub open spec fn seeded_id(stem: Option<Seq<char>>) -> Seq<char> {
    match stem {
        Some(s) => s,
        None => "imported_sprite"@,
    }
}

/// An id is still to be seeded: empty or the default `player_run`.
pub open spec fn id_unset(id: Seq<char>) -> bool {
    id.len() == 0 || id == "player_run"@
}

impl SpriteSheetImport {
    /// Takes the base id and the animation id from a chosen sheet's file
    /// name, each where it is still empty or the default `player_run`;
    /// `stem` is the slug of the file's stem, `None` when it has none.
    pub fn seed_ids_from_stem(&mut self, stem: Option<&str>)
        ensures
            final(self).base_id@ == if id_unset(old(self).base_id@) {
                seeded_id(opt_view(stem))
            } else {
                old(self).base_id@
            },
            final(self).animation_id@ == if id_unset(old(self).animation_id@) {
                seeded_id(opt_view(stem))
            } else {
                old(self).animation_id@
            },
            final(self).source_path == old(self).source_path,
            final(self).frame_width_px == old(self).frame_width_px,
            final(self).frame_height_px == old(self).frame_height_px,
            final(self).frame_count == old(self).frame_count,
            final(self).columns == old(self).columns,
            final(self).frame_duration == old(self).frame_duration,
            final(self).target_tileset_id == old(self).target_tileset_id,
            final(self).target_palette_id == old(self).target_palette_id,
    {
        let seed: String = match stem {
            Some(s) => s.to_string(),
            None => String::from_str("imported_sprite"),
        };
        let seed_base = self.base_id.unicode_len() == 0 || str_equal(self.base_id.as_str(), "player_run");
        let seed_animation = self.animation_id.unicode_len() == 0 || str_equal(
            self.animation_id.as_str(),
            "player_run",
        );
        if seed_base {
            self.base_id = seed.clone();
        }
        if seed_animation {
            self.animation_id = seed;
        }
    }
}

/// The stem of a sprite sheet copied into a project: the slug of the
/// source's stem, or `sprite_sheet` when that is missing or empty.
pub open spec fn destination_stem(stem: Option<Seq<char>>) -> Seq<char> {
    match stem {
        Some(s) => if s.len() > 0 {
            s
        } else {
            "sprite_sheet"@
        },
        None => "sprite_sheet"@,
    }
}

/// The extension of the copy: the source's, lowercased, or `png` when that
/// is missing or empty.
pub open spec fn destination_extension(extension: Option<Seq<char>>) -> Seq<char> {
    match extension {
        Some(e) => if e.len() > 0 {
            lowered(e)
        } else {
            "png"@
        },
        None => "png"@,
    }
}

/// The file name tried on the `counter`-th attempt (from zero) for a
/// sprite sheet copied into a project: `<stem>.<ext>`, then
/// `<stem>_<counter>.<ext>` with the counter two digits at least.
pub open spec fn spec_destination_name(stem: Option<Seq<char>>, extension: Option<Seq<char>>, counter: nat) -> Seq<
    char,
> {
    let (s, e) = (destination_stem(stem), destination_extension(extension));
    if counter == 0 {
        s + "."@ + e
    } else {
        s + "_"@ + padded2(counter) + "."@ + e
    }
}

/// The file name tried on the `counter`-th attempt for a sprite sheet
/// copied into a project; the first that is free on disk is taken.
/// `stem` is the slug of the source file's stem and `extension` its
/// extension, each `None` when the source has none.
pub fn sprite_destination_name(stem: Option<&str>, extension: Option<&str>, counter: usize) -> (name: String)
    ensures
        name@ == spec_destination_name(opt_view(stem), opt_view(extension), counter as nat),
{
    let mut name: String = match stem {
        Some(s) => if s.unicode_len() > 0 {
            s.to_string()
        } else {
            String::from_str("sprite_sheet")
        },
        None => String::from_str("sprite_sheet"),
    };
    let ext: String = match extension {
        Some(e) => if e.unicode_len() > 0 {
            lowercase_ascii(e)
        } else {
            String::from_str("png")
        },
        None => String::from_str("png"),
    };
    if counter > 0 {
        name.append("_");
        padded2_string(&mut name, counter);
    }
    name.append(".");
    name.append(ext.as_str());
    name
}

/// The ids that a project's resources use: those of its scenes, dialogues,
/// palettes, tilesets, metasprites and animations, in that order.
pub open spec fn project_ids(b: ProjectBundle) -> Seq<Seq<char>> {
    scene_ids(b.scenes@) + dialogue_ids(b.dialogues@) + palette_ids(b.palettes@) + tileset_ids(b.tilesets@)
        + metasprite_ids(b.metasprites@) + animation_ids(b.animations@)
}

fn append_scene_ids(out: &mut Vec<String>, items: &Vec<SceneResource>)
    ensures
        id_views(final(out)@) == id_views(old(out)@) + scene_ids(items@),
{
    let ghost start = id_views(out@);
    let mut i: usize = 0;
    while i < items.len()
        invariant
            i <= items@.len(),
            id_views(out@) == start + scene_ids(items@).take(i as int),
        decreases items@.len() - i,
    {
        let ghost prev = id_views(out@);
        out.push(items[i].id.clone());
        assert(id_views(out@) =~= prev.push(items@[i as int].id@));
        assert(scene_ids(items@).take(i + 1) =~= scene_ids(items@).take(i as int).push(items@[i as int].id@));
        i = i + 1;
    }
    assert(scene_ids(items@).take(i as int) =~= scene_ids(items@));
}

fn append_dialogue_ids(out: &mut Vec<String>, items: &Vec<DialogueGraph>)
    ensures
        id_views(final(out)@) == id_views(old(out)@) + dialogue_ids(items@),
{
    let ghost start = id_views(out@);
    let mut i: usize = 0;
    while i < items.len()
        invariant
            i <= items@.len(),
            id_views(out@) == start + dialogue_ids(items@).take(i as int),
        decreases items@.len() - i,
    {
        let ghost prev = id_views(out@);
        out.push(items[i].id.clone());
        assert(id_views(out@) =~= prev.push(items@[i as int].id@));
        assert(dialogue_ids(items@).take(i + 1) =~= dialogue_ids(items@).take(i as int).push(items@[i as int].id@));
        i = i + 1;
    }
    assert(dialogue_ids(items@).take(i as int) =~= dialogue_ids(items@));
}

fn append_palette_ids(out: &mut Vec<String>, items: &Vec<PaletteResource>)
    ensures
        id_views(final(out)@) == id_views(old(out)@) + palette_ids(items@),
{
    let ghost start = id_views(out@);
    let mut i: usize = 0;
    while i < items.len()
        invariant
            i <= items@.len(),
            id_views(out@) == start + palette_ids(items@).take(i as int),
        decreases items@.len() - i,
    {
        let ghost prev = id_views(out@);
        out.push(items[i].id.clone());
        assert(id_views(out@) =~= prev.push(items@[i as int].id@));
        assert(palette_ids(items@).take(i + 1) =~= palette_ids(items@).take(i as int).push(items@[i as int].id@));
        i = i + 1;
    }
    assert(palette_ids(items@).take(i as int) =~= palette_ids(items@));
}

fn append_tileset_ids(out: &mut Vec<String>, items: &Vec<TilesetResource>)
    ensures
        id_views(final(out)@) == id_views(old(out)@) + tileset_ids(items@),
{
    let ghost start = id_views(out@);
    let mut i: usize = 0;
    while i < items.len()
        invariant
            i <= items@.len(),
            id_views(out@) == start + tileset_ids(items@).take(i as int),
        decreases items@.len() - i,
    {
        let ghost prev = id_views(out@);
        out.push(items[i].id.clone());
        assert(id_views(out@) =~= prev.push(items@[i as int].id@));
        assert(tileset_ids(items@).take(i + 1) =~= tileset_ids(items@).take(i as int).push(items@[i as int].id@));
        i = i + 1;
    }
    assert(tileset_ids(items@).take(i as int) =~= tileset_ids(items@));
}

fn append_metasprite_ids(out: &mut Vec<String>, items: &Vec<MetaspriteResource>)
    ensures
        id_views(final(out)@) == id_views(old(out)@) + metasprite_ids(items@),
{
    let ghost start = id_views(out@);
    let mut i: usize = 0;
    while i < items.len()
        invariant
            i <= items@.len(),
            id_views(out@) == start + metasprite_ids(items@).take(i as int),
        decreases items@.len() - i,
    {
        let ghost prev = id_views(out@);
        out.push(items[i].id.clone());
        assert(id_views(out@) =~= prev.push(items@[i as int].id@));
        assert(metasprite_ids(items@).take(i + 1) =~= metasprite_ids(items@).take(i as int).push(items@[i as int].id@));
        i = i + 1;
    }
    assert(metasprite_ids(items@).take(i as int) =~= metasprite_ids(items@));
}

fn append_animation_ids(out: &mut Vec<String>, items: &Vec<AnimationResource>)
    ensures
        id_views(final(out)@) == id_views(old(out)@) + animation_ids(items@),
{
    let ghost start = id_views(out@);
    let mut i: usize = 0;
    while i < items.len()
        invariant
            i <= items@.len(),
            id_views(out@) == start + animation_ids(items@).take(i as int),
        decreases items@.len() - i,
    {
        let ghost prev = id_views(out@);
        out.push(items[i].id.clone());
        assert(id_views(out@) =~= prev.push(items@[i as int].id@));
        assert(animation_ids(items@).take(i + 1) =~= animation_ids(items@).take(i as int).push(items@[i as int].id@));
        i = i + 1;
    }
    assert(animation_ids(items@).take(i as int) =~= animation_ids(items@));
}

/// The ids that a project's resources use.
pub fn collect_project_ids(bundle: &ProjectBundle) -> (ids: Vec<String>)
    ensures
        id_views(ids@) == project_ids(*bundle),
{
    let mut ids: Vec<String> = Vec::new();
    assert(id_views(ids@) =~= Seq::<Seq<char>>::empty());
    append_scene_ids(&mut ids, &bundle.scenes);
    append_dialogue_ids(&mut ids, &bundle.dialogues);
    append_palette_ids(&mut ids, &bundle.palettes);
    append_tileset_ids(&mut ids, &bundle.tilesets);
    append_metasprite_ids(&mut ids, &bundle.metasprites);
    append_animation_ids(&mut ids, &bundle.animations);
    assert(id_views(ids@) =~= project_ids(*bundle));
    ids
}

/// Imports a sprite sheet into a project (see [`import_sprite_sheet`]),
/// the ids already in use being those of the project's resources.
pub fn import_sprite_sheet_into_bundle(
    bundle: &mut ProjectBundle,
    s: &SpriteSheetImport,
    bytes: &Vec<u8>,
    w: u32,
    h: u32,
) -> (r: Result<String, ImportError>)
    requires
        frames_fit_u32(*s),
        s.frame_count < usize::MAX,
        s.frame_count * tiles_per_frame(*s) * 64 <= usize::MAX,
        first_with_id(tileset_ids(old(bundle).tilesets@), s.target_tileset_id@) matches Some(t)
            ==> old(bundle).tilesets@[t].tiles@.len() + s.frame_count * tiles_per_frame(*s) <= usize::MAX,
    ensures
        import_outcome(*old(bundle), *final(bundle), *s, bytes@, w, h, project_ids(*old(bundle)), r),
{
    let reserved = collect_project_ids(bundle);
    import_sprite_sheet(bundle, s, bytes, w, h, &reserved)
}

} // verus!
