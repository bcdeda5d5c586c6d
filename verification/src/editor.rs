//! Editor logic that does not draw: tools and their labels, tile
//! selections, search filters, color matching and the undo history.
use vstd::prelude::*;
use crate::platformer::InputFrame;
use crate::session::{is_first_checkpoint, is_first_spawn, spec_default_start, PlaytestSession, PlaytestState};
use crate::project::PhysicsProfile;
use crate::text::{decimal, push_decimal};
use crate::project::{PaletteResource, PointI16, RectI16, RgbaColor, SceneResource, TileLayer};
use crate::workspace::{DockLayout, DockSlot, DockTab, LayoutView, SlotView};
use crate::workspace_file::SavedDockLayout;

verus! {

/// Number of snapshots that the undo history keeps.
pub const HISTORY_LIMIT: usize = 64;

/// A tool of the scene editor.
#[derive(Debug, Clone, Copy, PartialEq, Eq)]
pub enum EditorTool {
    Select,
    Paint,
    Erase,
    Solid,
    Ladder,
    Hazard,
    Spawn,
    Checkpoint,
    Entity,
    Trigger,
}

impl EditorTool {
    /// The name shown for the tool.
    pub fn label(self) -> (s: &'static str)
        ensures
            s@ == spec_tool_label(self),
    {
        match self {
            EditorTool::Select => "Select",
            EditorTool::Paint => "Paint",
            EditorTool::Erase => "Erase",
            EditorTool::Solid => "Solid",
            EditorTool::Ladder => "Ladder",
            EditorTool::Hazard => "Hazard",
            EditorTool::Spawn => "Spawn",
            EditorTool::Checkpoint => "Checkpoint",
            EditorTool::Entity => "Entity",
            EditorTool::Trigger => "Trigger",
        }
    }
}

/// The name shown for a tool.
pub open spec fn spec_tool_label(t: EditorTool) -> Seq<char> {
    match t {
        EditorTool::Select => "Select"@,
        EditorTool::Paint => "Paint"@,
        EditorTool::Erase => "Erase"@,
        EditorTool::Solid => "Solid"@,
        EditorTool::Ladder => "Ladder"@,
        EditorTool::Hazard => "Hazard"@,
        EditorTool::Spawn => "Spawn"@,
        EditorTool::Checkpoint => "Checkpoint"@,
        EditorTool::Entity => "Entity"@,
        EditorTool::Trigger => "Trigger"@,
    }
}

/// A group of objects listed by the scene outliner.
#[derive(Debug, Clone, Copy, PartialEq, Eq, Structural)]
pub enum SceneObjectGroup {
    Spawns,
    Checkpoints,
    Entities,
    Triggers,
    Scripts,
}

impl SceneObjectGroup {
    /// The name shown for the group.
    pub fn label(self) -> (s: &'static str)
        ensures
            s@ == (match self {
                SceneObjectGroup::Spawns => "Spawns"@,
                SceneObjectGroup::Checkpoints => "Checkpoints"@,
                SceneObjectGroup::Entities => "Entities"@,
                SceneObjectGroup::Triggers => "Triggers"@,
                SceneObjectGroup::Scripts => "Scripts"@,
            }),
    {
        match self {
            SceneObjectGroup::Spawns => "Spawns",
            SceneObjectGroup::Checkpoints => "Checkpoints",
            SceneObjectGroup::Entities => "Entities",
            SceneObjectGroup::Triggers => "Triggers",
            SceneObjectGroup::Scripts => "Scripts",
        }
    }
}

/// How the diagnostics list is grouped.
#[derive(Debug, Clone, Copy, PartialEq, Eq, Default)]
pub enum DiagnosticGrouping {
    #[default]
    Severity,
    Code,
    Path,
}

impl DiagnosticGrouping {
    /// The name shown for the grouping.
    pub fn label(self) -> (s: &'static str)
        ensures
            s@ == (match self {
                DiagnosticGrouping::Severity => "Severity"@,
                DiagnosticGrouping::Code => "Code"@,
                DiagnosticGrouping::Path => "Path"@,
            }),
    {
        match self {
            DiagnosticGrouping::Severity => "Severity",
            DiagnosticGrouping::Code => "Code",
            DiagnosticGrouping::Path => "Path",
        }
    }
}

/// The filters of the diagnostics list.
#[derive(Debug, Clone)]
pub struct DiagnosticsViewState {
    pub search: String,
    pub show_errors: bool,
    pub show_warnings: bool,
    pub grouping: DiagnosticGrouping,
}

impl DiagnosticsViewState {
    /// No search, errors and warnings shown, grouped by severity.
    pub fn new() -> (s: Self)
        ensures
            s.search@ == Seq::<char>::empty(),
            s.show_errors,
            s.show_warnings,
            s.grouping == DiagnosticGrouping::Severity,
    {
        DiagnosticsViewState {
            search: String::new(),
            show_errors: true,
            show_warnings: true,
            grouping: DiagnosticGrouping::Severity,
        }
    }
}

/// Where a playtest starts.
#[derive(Debug, Clone, Copy, PartialEq, Eq)]
pub enum PlaytestStartMode {
    SceneStart,
    SelectedSpawn,
    SelectedCheckpoint,
}

impl PlaytestStartMode {
    /// The name shown for the mode.
    pub fn label(self) -> (s: &'static str)
        ensures
            s@ == (match self {
                PlaytestStartMode::SceneStart => "Scene Start"@,
                PlaytestStartMode::SelectedSpawn => "Selected Spawn"@,
                PlaytestStartMode::SelectedCheckpoint => "Selected Checkpoint"@,
            }),
    {
        match self {
            PlaytestStartMode::SceneStart => "Scene Start",
            PlaytestStartMode::SelectedSpawn => "Selected Spawn",
            PlaytestStartMode::SelectedCheckpoint => "Selected Checkpoint",
        }
    }
}

/// A rectangle of tiles, both corners included.
#[derive(Debug, Clone, Copy, PartialEq, Eq, Default)]
pub struct TileSelectionRect {
    pub min_x: usize,
    pub min_y: usize,
    pub max_x: usize,
    pub max_y: usize,
}

impl TileSelectionRect {
    /// The rectangle spanned by two corner tiles.
    pub fn from_points(a: (usize, usize), b: (usize, usize)) -> (r: Self)
        ensures
            r.min_x == (if a.0 <= b.0 { a.0 } else { b.0 }),
            r.min_y == (if a.1 <= b.1 { a.1 } else { b.1 }),
            r.max_x == (if a.0 >= b.0 { a.0 } else { b.0 }),
            r.max_y == (if a.1 >= b.1 { a.1 } else { b.1 }),
    {
        TileSelectionRect {
            min_x: if a.0 <= b.0 { a.0 } else { b.0 },
            min_y: if a.1 <= b.1 { a.1 } else { b.1 },
            max_x: if a.0 >= b.0 { a.0 } else { b.0 },
            max_y: if a.1 >= b.1 { a.1 } else { b.1 },
        }
    }

    /// Width in tiles; 1 when the corners are reversed.
    pub fn width_tiles(self) -> (w: usize)
        requires
            self.max_x < usize::MAX || self.min_x > 0,
        ensures
            w == (if self.max_x >= self.min_x { self.max_x - self.min_x } else { 0 }) + 1,
    {
        (if self.max_x >= self.min_x { self.max_x - self.min_x } else { 0 }) + 1
    }

    /// Height in tiles; 1 when the corners are reversed.
    pub fn height_tiles(self) -> (h: usize)
        requires
            self.max_y < usize::MAX || self.min_y > 0,
        ensures
            h == (if self.max_y >= self.min_y { self.max_y - self.min_y } else { 0 }) + 1,
    {
        (if self.max_y >= self.min_y { self.max_y - self.min_y } else { 0 }) + 1
    }

    /// The pixel position of the top-left tile.
    pub fn origin_pixels(self) -> (p: PointI16)
        requires
            self.min_x * 8 <= usize::MAX,
            self.min_y * 8 <= usize::MAX,
        ensures
            p.x == (self.min_x * 8) as i16,
            p.y == (self.min_y * 8) as i16,
    {
        PointI16 { x: (self.min_x * 8) as i16, y: (self.min_y * 8) as i16 }
    }

    /// Whether a pixel lies in the selected tiles.
    pub fn contains_point_pixels(self, point: PointI16) -> (r: bool)
        requires
            self.min_x * 8 <= usize::MAX,
            self.min_y * 8 <= usize::MAX,
            (self.max_x + 1) * 8 <= usize::MAX,
            (self.max_y + 1) * 8 <= usize::MAX,
        ensures
            r == (point.x >= (self.min_x * 8) as i16 && point.x < ((self.max_x + 1) * 8) as i16
                && point.y >= (self.min_y * 8) as i16 && point.y < ((self.max_y + 1) * 8) as i16),
    {
        let min = self.origin_pixels();
        let max_x = ((self.max_x + 1) * 8) as i16;
        let max_y = ((self.max_y + 1) * 8) as i16;
        point.x >= min.x && point.x < max_x && point.y >= min.y && point.y < max_y
    }

    /// Whether a pixel rectangle overlaps the selected tiles.
    pub fn intersects_rect_pixels(self, rect: RectI16) -> (r: bool)
        requires
            self.min_x * 8 <= usize::MAX,
            self.min_y * 8 <= usize::MAX,
            (self.max_x + 1) * 8 <= usize::MAX,
            (self.max_y + 1) * 8 <= usize::MAX,
        ensures
            r == (rect.x < ((self.max_x + 1) * 8) as i16 && saturating_add_i16(rect.x as int, rect.width as i16 as int)
                > (self.min_x * 8) as i16 && rect.y < ((self.max_y + 1) * 8) as i16 && saturating_add_i16(
                rect.y as int,
                rect.height as i16 as int,
            ) > (self.min_y * 8) as i16),
    {
        let min = self.origin_pixels();
        let max_x = ((self.max_x + 1) * 8) as i16;
        let max_y = ((self.max_y + 1) * 8) as i16;
        let rect_right = add_clamped_i16(rect.x, rect.width as i16);
        let rect_bottom = add_clamped_i16(rect.y, rect.height as i16);
        rect.x < max_x && rect_right > min.x && rect.y < max_y && rect_bottom > min.y
    }
}

/// `a + b` clamped to the `i16` range.
pub open spec fn saturating_add_i16(a: int, b: int) -> int {
    if a + b > i16::MAX {
        i16::MAX as int
    } else if a + b < i16::MIN {
        i16::MIN as int
    } else {
        a + b
    }
}

/// `a + b` clamped to the `i16` range.
fn add_clamped_i16(a: i16, b: i16) -> (r: i16)
    ensures
        r == saturating_add_i16(a as int, b as int),
{
    let s = a as i32 + b as i32;
    if s > i16::MAX as i32 {
        i16::MAX
    } else if s < i16::MIN as i32 {
        i16::MIN
    } else {
        s as i16
    }
}

/// Right or bottom edge of a pixel rectangle, clamped to `i16`.
pub open spec fn rect_far_edge(start: i16, size: u16) -> int {
    saturating_add_i16(start as int, size as i16 as int)
}

/// Whether two pixel rectangles overlap.
pub fn rects_overlap_pixels(a: RectI16, b: RectI16) -> (r: bool)
    ensures
        r == (a.x < rect_far_edge(b.x, b.width) && rect_far_edge(a.x, a.width) > b.x && a.y
            < rect_far_edge(b.y, b.height) && rect_far_edge(a.y, a.height) > b.y),
{
    let a_right = add_clamped_i16(a.x, a.width as i16);
    let a_bottom = add_clamped_i16(a.y, a.height as i16);
    let b_right = add_clamped_i16(b.x, b.width as i16);
    let b_bottom = add_clamped_i16(b.y, b.height as i16);
    a.x < b_right && a_right > b.x && a.y < b_bottom && a_bottom > b.y
}

/// An index kept within `len` items: `None` for no items, else the index
/// (0 when absent) clamped to the last item.
pub open spec fn spec_sanitize_index(index: Option<usize>, len: int) -> Option<usize> {
    if len == 0 {
        None
    } else {
        let i = match index {
            Some(i) => i as int,
            None => 0,
        };
        Some((if i < len - 1 { i } else { len - 1 }) as usize)
    }
}

/// Keeps an optional index within `len` items.
pub fn sanitize_optional_index(index: Option<usize>, len: usize) -> (r: Option<usize>)
    ensures
        r == spec_sanitize_index(index, len as int),
{
    if len == 0 {
        None
    } else {
        let i = match index {
            Some(i) => i,
            None => 0,
        };
        Some(if i < len - 1 { i } else { len - 1 })
    }
}

/// An ASCII letter made lowercase; every other character unchanged.
pub open spec fn ascii_lower(c: char) -> char {
    if 'A' <= c <= 'Z' { ((c as u32) + 32) as char } else { c }
}

/// `needle` occurs in `hay` at position `i`.
pub open spec fn occurs_at(hay: Seq<char>, needle: Seq<char>, i: int) -> bool {
    0 <= i && i + needle.len() <= hay.len() && hay.subrange(i, i + needle.len()) == needle
}

/// A string with its ASCII letters lowercased.
pub open spec fn lowered(s: Seq<char>) -> Seq<char> {
    s.map_values(|c: char| ascii_lower(c))
}

/// A search filter matches a candidate: the filter is empty or occurs in
/// the candidate with ASCII letters lowercased.
pub open spec fn spec_filter_matches(filter: Seq<char>, candidate: Seq<char>) -> bool {
    filter.len() == 0 || exists|i: int| #[trigger] occurs_at(lowered(candidate), filter, i)
}

/// The character with ASCII letters lowercased.
pub fn to_ascii_lower(c: char) -> (r: char)
    ensures
        r == ascii_lower(c),
{
    if 'A' <= c && c <= 'Z' {
        let u = ((c as u32) + 32) as u8;
        u as char
    } else {
        c
    }
}

/// Whether a search filter matches a candidate.
pub fn filter_matches(filter: &str, candidate: &str) -> (r: bool)
    ensures
        r == spec_filter_matches(filter@, candidate@),
{
    let m = filter.unicode_len();
    if m == 0 {
        return true;
    }
    let n = candidate.unicode_len();
    let mut lower: Vec<char> = Vec::new();
    let mut k: usize = 0;
    while k < n
        invariant
            n == candidate@.len(),
            k <= n,
            lower@ == candidate@.take(k as int).map_values(|c: char| ascii_lower(c)),
        decreases n - k,
    {
        let c = to_ascii_lower(candidate.get_char(k));
        lower.push(c);
        proof {
            assert(candidate@.take(k + 1).map_values(|c: char| ascii_lower(c)) =~= candidate@.take(
                k as int,
            ).map_values(|c: char| ascii_lower(c)).push(ascii_lower(candidate@[k as int])));
        }
        k = k + 1;
    }
    let ghost hay = lowered(candidate@);
    assert(candidate@.take(n as int) =~= candidate@);
    assert(lower@ == hay);
    if m > n {
        assert(!exists|i: int| occurs_at(hay, filter@, i));
        return false;
    }
    let mut i: usize = 0;
    while i <= n - m
        invariant
            m == filter@.len(),
            n == hay.len(),
            1 <= m <= n,
            lower@ == hay,
            hay == lowered(candidate@),
            i <= n - m + 1,
            forall|j: int| 0 <= j < i ==> !occurs_at(hay, filter@, j),
        decreases n - m + 1 - i,
    {
        let mut j: usize = 0;
        let mut same = true;
        while j < m
            invariant
                m == filter@.len(),
                n == hay.len(),
                i + m <= n,
                lower@ == hay,
                j <= m,
                same == (forall|q: int| 0 <= q < j ==> hay[i + q] == filter@[q]),
            decreases m - j,
        {
            if lower[i + j] != filter.get_char(j) {
                same = false;
            }
            j = j + 1;
        }
        if same {
            assert(hay.subrange(i as int, i + m) =~= filter@);
            assert(occurs_at(hay, filter@, i as int));
            return true;
        }
        assert(!(hay.subrange(i as int, i + m) =~= filter@));
        i = i + 1;
    }
    false
}

/// The squared RGB distance of two colors.
pub open spec fn spec_color_distance(a: RgbaColor, b: RgbaColor) -> int {
    let dr = a.r - b.r;
    let dg = a.g - b.g;
    let db = a.b - b.b;
    dr * dr + dg * dg + db * db
}

/// Law: the squared distance of two colors is the sum of the squares of
/// their red, green and blue differences (alpha plays no part); it is zero
/// exactly for colors equal in red, green and blue, and no smaller than
/// the square of any one channel's difference.
pub proof fn lemma_color_distance(a: RgbaColor, b: RgbaColor)
    ensures
        spec_color_distance(a, b) == (a.r as int - b.r as int) * (a.r as int - b.r as int) + (a.g as int - b.g as int)
            * (a.g as int - b.g as int) + (a.b as int - b.b as int) * (a.b as int - b.b as int),
        spec_color_distance(a, b) == 0 <==> (a.r == b.r && a.g == b.g && a.b == b.b),
        spec_color_distance(a, b) >= (a.r as int - b.r as int) * (a.r as int - b.r as int),
        spec_color_distance(a, b) >= (a.g as int - b.g as int) * (a.g as int - b.g as int),
        spec_color_distance(a, b) >= (a.b as int - b.b as int) * (a.b as int - b.b as int),
        spec_color_distance(a, b) == spec_color_distance(b, a),
{
    let dr = a.r as int - b.r as int;
    let dg = a.g as int - b.g as int;
    let db = a.b as int - b.b as int;
    assert(dr * dr >= 0 && dg * dg >= 0 && db * db >= 0) by (nonlinear_arith);
    assert(dr * dr == 0 ==> dr == 0) by (nonlinear_arith);
    assert(dg * dg == 0 ==> dg == 0) by (nonlinear_arith);
    assert(db * db == 0 ==> db == 0) by (nonlinear_arith);
    assert((-dr) * (-dr) == dr * dr && (-dg) * (-dg) == dg * dg && (-db) * (-db) == db * db) by (nonlinear_arith);
}

/// The squared red, green and blue distance of two colors, channel by
/// channel.
pub open spec fn rgb_gap(a: RgbaColor, b: RgbaColor) -> int {
    (a.r as int - b.r as int) * (a.r as int - b.r as int) + (a.g as int - b.g as int) * (a.g as int - b.g as int)
        + (a.b as int - b.b as int) * (a.b as int - b.b as int)
}

/// Law: an opaque pixel whose color a full palette lacks maps to an entry
/// from index 1 on that is nearest to it in red, green and blue, the first
/// such, and the palette stays as it was.
pub proof fn lemma_nearest_palette_entry(old_colors: Seq<RgbaColor>, new_colors: Seq<RgbaColor>, rgba: Seq<u8>, index: u8)
    requires
        rgba.len() == 4,
        rgba[3] >= 16,
        old_colors.len() >= 16,
        !old_colors.contains(RgbaColor { r: rgba[0], g: rgba[1], b: rgba[2], a: rgba[3] }),
        palette_index_is(old_colors, new_colors, rgba, index),
    ensures
        new_colors == old_colors,
        exists|i: int|
            #![trigger old_colors[i]]
            {
                let c = RgbaColor { r: rgba[0], g: rgba[1], b: rgba[2], a: rgba[3] };
                &&& 1 <= i < old_colors.len()
                &&& index == i as u8
                &&& forall|j: int| 1 <= j < old_colors.len() ==> rgb_gap(old_colors[i], c) <= rgb_gap(#[trigger] old_colors[j], c)
                &&& forall|j: int| 1 <= j < i ==> rgb_gap(old_colors[i], c) < rgb_gap(#[trigger] old_colors[j], c)
            },
{
    let c = RgbaColor { r: rgba[0], g: rgba[1], b: rgba[2], a: rgba[3] };
    let i = choose|i: int|
        #![trigger old_colors[i]]
        {
            &&& 1 <= i < old_colors.len()
            &&& index == i as u8
            &&& forall|j: int|
                1 <= j < old_colors.len() ==> spec_color_distance(old_colors[i], c) <= spec_color_distance(
                    #[trigger] old_colors[j],
                    c,
                )
            &&& forall|j: int|
                1 <= j < i ==> spec_color_distance(old_colors[i], c) < spec_color_distance(#[trigger] old_colors[j], c)
        };
    lemma_color_distance(old_colors[i], c);
    assert forall|j: int| 1 <= j < old_colors.len() implies rgb_gap(old_colors[i], c) <= rgb_gap(
        #[trigger] old_colors[j],
        c,
    ) by {
        lemma_color_distance(old_colors[j], c);
    }
    assert forall|j: int| 1 <= j < i implies rgb_gap(old_colors[i], c) < rgb_gap(#[trigger] old_colors[j], c) by {
        lemma_color_distance(old_colors[j], c);
    }
}

/// The squared RGB distance of two colors.
pub fn color_distance_squared(a: &RgbaColor, b: &RgbaColor) -> (d: u32)
    ensures
        d == spec_color_distance(*a, *b),
{
    let dr = a.r as i32 - b.r as i32;
    let dg = a.g as i32 - b.g as i32;
    let db = a.b as i32 - b.b as i32;
    assert(dr * dr <= 65025 && dg * dg <= 65025 && db * db <= 65025) by (nonlinear_arith)
        requires
            -255 <= dr <= 255,
            -255 <= dg <= 255,
            -255 <= db <= 255,
    ;
    assert(dr * dr >= 0 && dg * dg >= 0 && db * db >= 0) by (nonlinear_arith);
    (dr * dr + dg * dg + db * db) as u32
}

/// The palette index that an RGBA pixel maps to, and the palette after the
/// mapping: transparent pixels map to 0; an existing color maps to its
/// first index; a new color is appended while the palette has fewer than
/// sixteen colors; otherwise the nearest color from index 1 on is used,
/// the first one on ties.
pub open spec fn palette_index_is(
    old_colors: Seq<RgbaColor>,
    new_colors: Seq<RgbaColor>,
    rgba: Seq<u8>,
    index: u8,
) -> bool {
    let color = RgbaColor { r: rgba[0], g: rgba[1], b: rgba[2], a: rgba[3] };
    if rgba[3] < 16 {
        index == 0 && new_colors == old_colors
    } else if old_colors.contains(color) {
        &&& new_colors == old_colors
        &&& exists|i: int|
            #![trigger old_colors[i]]
            0 <= i < old_colors.len() && old_colors[i] == color && (forall|j: int|
                0 <= j < i ==> old_colors[j] != color) && index == i as u8
    } else if old_colors.len() < 16 {
        new_colors == old_colors.push(color) && index == old_colors.len()
    } else {
        &&& new_colors == old_colors
        &&& exists|i: int|
            #![trigger old_colors[i]]
            {
                &&& 1 <= i < old_colors.len()
                &&& index == i as u8
                &&& forall|j: int|
                    1 <= j < old_colors.len() ==> spec_color_distance(old_colors[i], color)
                        <= spec_color_distance(#[trigger] old_colors[j], color)
                &&& forall|j: int|
                    1 <= j < i ==> spec_color_distance(old_colors[i], color) < spec_color_distance(
                        #[trigger] old_colors[j],
                        color,
                    )
            }
    }
}

/// Maps an RGBA pixel to a palette index, adding its color to the palette
/// when there is room.
pub fn palette_index_for_rgba(palette: &mut PaletteResource, rgba: [u8; 4]) -> (index: u8)
    ensures
        final(palette).id == old(palette).id,
        palette_index_is(old(palette).colors@, final(palette).colors@, rgba@, index),
{
    if rgba[3] < 16 {
        return 0;
    }
    let color = RgbaColor { r: rgba[0], g: rgba[1], b: rgba[2], a: rgba[3] };
    let n = palette.colors.len();
    let mut i: usize = 0;
    while i < n
        invariant
            n == palette.colors@.len(),
            palette.colors@ == old(palette).colors@,
            palette.id == old(palette).id,
            color == (RgbaColor { r: rgba@[0], g: rgba@[1], b: rgba@[2], a: rgba@[3] }),
            rgba@[3] >= 16,
            i <= n,
            forall|j: int| 0 <= j < i ==> palette.colors@[j] != color,
        decreases n - i,
    {
        if palette.colors[i] == color {
            assert(old(palette).colors@[i as int] == color);
            let index = i as u8;
            assert(index == (i as int) as u8);
            return index;
        }
        i = i + 1;
    }
    if n < 16 {
        palette.colors.push(color);
        return n as u8;
    }
    let mut best: usize = 1;
    let mut best_distance = color_distance_squared(&palette.colors[1], &color);
    let mut j: usize = 2;
    while j < n
        invariant
            n == palette.colors@.len(),
            16 <= n,
            palette.colors@ == old(palette).colors@,
            palette.id == old(palette).id,
            1 <= best < j <= n,
            best_distance == spec_color_distance(palette.colors@[best as int], color),
            forall|k: int|
                1 <= k < j ==> best_distance <= spec_color_distance(#[trigger] palette.colors@[k], color),
            forall|k: int|
                1 <= k < best ==> best_distance < spec_color_distance(#[trigger] palette.colors@[k], color),
        decreases n - j,
    {
        let d = color_distance_squared(&palette.colors[j], &color);
        if d < best_distance {
            best = j;
            best_distance = d;
        }
        j = j + 1;
    }
    let index = best as u8;
    assert(palette.colors@[best as int] == old(palette).colors@[best as int]);
    assert(index == (best as int) as u8);
    index
}

/// The pixel bounds of the non-empty tiles of a layer in a scene of
/// `width` tiles: the tile index `i` sits at column `i % width`, row
/// `i / width`.
pub open spec fn nonempty_tile(tiles: Seq<u16>, i: int) -> bool {
    0 <= i < tiles.len() && tiles[i] != 0
}

/// Bounds of the non-empty tiles of a layer, if any, as a pixel rectangle.
pub open spec fn layer_bounds_are(
    tiles: Seq<u16>,
    width: int,
    min_x: int,
    min_y: int,
    max_x: int,
    max_y: int,
) -> bool {
    &&& forall|i: int| #[trigger] nonempty_tile(tiles, i) ==> min_x <= i % width <= max_x && min_y <= i / width <= max_y
    &&& exists|i: int| #[trigger] nonempty_tile(tiles, i) && i % width == min_x
    &&& exists|i: int| #[trigger] nonempty_tile(tiles, i) && i / width == min_y
    &&& exists|i: int| #[trigger] nonempty_tile(tiles, i) && i % width == max_x
    &&& exists|i: int| #[trigger] nonempty_tile(tiles, i) && i / width == max_y
}

/// `r` is the pixel rectangle covering the non-empty tiles of a layer;
/// `None` for a scene without width or a layer without non-empty tiles.
pub open spec fn layer_bounds_result(scene: SceneResource, layer: TileLayer, r: Option<RectI16>) -> bool {
    &&& scene.size_tiles.width == 0 ==> r is None
    &&& scene.size_tiles.width > 0 ==> match r {
        None => forall|i: int| !#[trigger] nonempty_tile(layer.tiles@, i),
        Some(rect) => exists|min_x: int, min_y: int, max_x: int, max_y: int|
            layer_bounds_are(layer.tiles@, scene.size_tiles.width as int, min_x, min_y, max_x, max_y)
                && rect == (RectI16 {
                x: (min_x * 8) as i16,
                y: (min_y * 8) as i16,
                width: ((max_x - min_x + 1) * 8) as u16,
                height: ((max_y - min_y + 1) * 8) as u16,
            }),
    }
}

/// The pixel rectangle covering the non-empty tiles of a layer; `None` for
/// a scene without width or a layer without non-empty tiles.
pub fn layer_bounds_pixels(scene: &SceneResource, layer: &TileLayer) -> (r: Option<RectI16>)
    requires
        layer.tiles@.len() * 8 <= usize::MAX,
    ensures
        layer_bounds_result(*scene, *layer, r),
{
    let width = scene.size_tiles.width as usize;
    if width == 0 {
        return None;
    }
    let mut min_x: usize = usize::MAX;
    let mut min_y: usize = usize::MAX;
    let mut max_x: usize = 0;
    let mut max_y: usize = 0;
    let mut found = false;
    let ghost mut wx: int = 0;
    let ghost mut wy: int = 0;
    let ghost mut ax: int = 0;
    let ghost mut ay: int = 0;
    let n = layer.tiles.len();
    let mut index: usize = 0;
    while index < n
        invariant
            n == layer.tiles@.len(),
            width == scene.size_tiles.width,
            width >= 1,
            index <= n,
            found <==> exists|i: int| 0 <= i < index && #[trigger] nonempty_tile(layer.tiles@, i),
            found ==> {
                &&& forall|i: int|
                    0 <= i < index && #[trigger] nonempty_tile(layer.tiles@, i) ==> min_x <= i % (width as int) <= max_x
                        && min_y <= i / (width as int) <= max_y
                &&& nonempty_tile(layer.tiles@, wx) && wx % (width as int) == min_x
                &&& nonempty_tile(layer.tiles@, wy) && wy / (width as int) == min_y
                &&& nonempty_tile(layer.tiles@, ax) && ax % (width as int) == max_x
                &&& nonempty_tile(layer.tiles@, ay) && ay / (width as int) == max_y
                &&& min_x <= max_x
                &&& min_y <= max_y
            },
        decreases n - index,
    {
        if layer.tiles[index] != 0 {
            assert(nonempty_tile(layer.tiles@, index as int));
            let tile_x = index % width;
            let tile_y = index / width;
            if !found || tile_x < min_x {
                min_x = tile_x;
                proof {
                    wx = index as int;
                }
            }
            if !found || tile_y < min_y {
                min_y = tile_y;
                proof {
                    wy = index as int;
                }
            }
            if !found || tile_x > max_x {
                max_x = tile_x;
                proof {
                    ax = index as int;
                }
            }
            if !found || tile_y > max_y {
                max_y = tile_y;
                proof {
                    ay = index as int;
                }
            }
            found = true;
        } else {
            assert(!nonempty_tile(layer.tiles@, index as int));
        }
        index = index + 1;
    }
    if !found {
        return None;
    }
    proof {
        assert(layer_bounds_are(layer.tiles@, width as int, min_x as int, min_y as int, max_x as int, max_y as int));
    }
    assert(min_x * 8 <= usize::MAX && (max_x - min_x + 1) * 8 <= usize::MAX) by (nonlinear_arith)
        requires
            min_x <= max_x,
            max_x < width,
            width <= 65535,
    {
    }
    assert(max_y < n) by (nonlinear_arith)
        requires
            max_y == ay / (width as int),
            0 <= ay < n,
            width >= 1,
    {
    }
    Some(
        RectI16 {
            x: (min_x * 8) as i16,
            y: (min_y * 8) as i16,
            width: ((max_x - min_x + 1) * 8) as u16,
            height: ((max_y - min_y + 1) * 8) as u16,
        },
    )
}


/// What an undo history holds: the snapshots to go back to, the latest
/// last, and the snapshots to go forward to again, the next one last.
#[verifier::ext_equal]
pub ghost struct HistoryView<T> {
    pub undo: Seq<T>,
    pub redo: Seq<T>,
}

/// Snapshots of a document for undo and redo; taking snapshots never
/// brings their number above `HISTORY_LIMIT`.
#[derive(Debug)]
pub struct UndoHistory<T> {
    undo: Vec<T>,
    redo: Vec<T>,
}

impl<T> View for UndoHistory<T> {
    type V = HistoryView<T>;

    closed spec fn view(&self) -> HistoryView<T> {
        HistoryView { undo: self.undo@, redo: self.redo@ }
    }
}

/// The history after a snapshot is taken: the oldest snapshot is dropped
/// when the limit is reached, and what could be redone is forgotten.
pub open spec fn captured<T>(h: HistoryView<T>, snapshot: T) -> HistoryView<T> {
    let kept = if h.undo.len() == HISTORY_LIMIT { h.undo.drop_first() } else { h.undo };
    HistoryView { undo: kept.push(snapshot), redo: Seq::empty() }
}

/// The history and document after one undo: the latest snapshot becomes
/// the document, and the document is kept for redo.
pub open spec fn undone<T>(h: HistoryView<T>, current: T) -> (HistoryView<T>, T) {
    (HistoryView { undo: h.undo.drop_last(), redo: h.redo.push(current) }, h.undo.last())
}

/// The history and document after one redo.
pub open spec fn redone<T>(h: HistoryView<T>, current: T) -> (HistoryView<T>, T) {
    (HistoryView { undo: h.undo.push(current), redo: h.redo.drop_last() }, h.redo.last())
}

/// The history holds no more snapshots than the limit.
pub open spec fn history_bounded<T>(h: HistoryView<T>) -> bool {
    h.undo.len() + h.redo.len() <= HISTORY_LIMIT
}

impl<T> UndoHistory<T> {
    /// An empty history.
    pub fn new() -> (h: Self)
        ensures
            h@.undo == Seq::<T>::empty(),
            h@.redo == Seq::<T>::empty(),
    {
        UndoHistory { undo: Vec::new(), redo: Vec::new() }
    }

    /// Whether there is a snapshot to go back to.
    pub fn can_undo(&self) -> (r: bool)
        ensures
            r == (self@.undo.len() > 0),
    {
        self.undo.len() > 0
    }

    /// Whether there is a snapshot to go forward to.
    pub fn can_redo(&self) -> (r: bool)
        ensures
            r == (self@.redo.len() > 0),
    {
        self.redo.len() > 0
    }

    /// Records a snapshot of the document before a change.
    pub fn capture(&mut self, snapshot: T)
        ensures
            final(self)@ == captured(old(self)@, snapshot),
            history_bounded(old(self)@) ==> history_bounded(final(self)@),
    {
        self.redo.clear();
        if self.undo.len() == HISTORY_LIMIT {
            self.undo.remove(0);
        }
        self.undo.push(snapshot);
        assert(self@ =~= captured(old(self)@, snapshot));
    }

    /// Goes back to the latest snapshot, keeping the document for redo;
    /// `false`, with nothing changed, when there is none.
    pub fn undo(&mut self, current: &mut T) -> (r: bool)
        ensures
            r == (old(self)@.undo.len() > 0),
            r ==> (final(self)@, *final(current)) == undone(old(self)@, *old(current)),
            !r ==> final(self)@ == old(self)@ && *final(current) == *old(current),
            history_bounded(old(self)@) ==> history_bounded(final(self)@),
    {
        match self.undo.pop() {
            None => false,
            Some(previous) => {
                let mut previous = previous;
                std::mem::swap(current, &mut previous);
                self.redo.push(previous);
                true
            },
        }
    }

    /// Goes forward to the snapshot last undone, keeping the document for
    /// undo; `false`, with nothing changed, when there is none.
    pub fn redo(&mut self, current: &mut T) -> (r: bool)
        ensures
            r == (old(self)@.redo.len() > 0),
            r ==> (final(self)@, *final(current)) == redone(old(self)@, *old(current)),
            !r ==> final(self)@ == old(self)@ && *final(current) == *old(current),
            history_bounded(old(self)@) ==> history_bounded(final(self)@),
    {
        match self.redo.pop() {
            None => false,
            Some(next) => {
                let mut next = next;
                std::mem::swap(current, &mut next);
                self.undo.push(next);
                true
            },
        }
    }

    /// Forgets every snapshot.
    pub fn clear(&mut self)
        ensures
            final(self)@.undo == Seq::<T>::empty(),
            final(self)@.redo == Seq::<T>::empty(),
    {
        self.undo.clear();
        self.redo.clear();
    }
}

impl<T> Default for UndoHistory<T> {
    fn default() -> (h: Self)
        ensures
            h@.undo == Seq::<T>::empty(),
            h@.redo == Seq::<T>::empty(),
    {
        UndoHistory::new()
    }
}

/// Law: a redo right after an undo gives back the history and the document
/// as they were before the undo.
pub proof fn lemma_redo_reverts_undo<T>(h: HistoryView<T>, current: T)
    requires
        h.undo.len() > 0,
    ensures
        undone(h, current).0.redo.len() > 0,
        redone(undone(h, current).0, undone(h, current).1) == (h, current),
{
    let (h2, c2) = undone(h, current);
    assert(h2.undo.push(c2) =~= h.undo);
    assert(h2.redo.drop_last() =~= h.redo);
}

/// Law: an undo right after a redo gives back the history and the document
/// as they were before the redo.
pub proof fn lemma_undo_reverts_redo<T>(h: HistoryView<T>, current: T)
    requires
        h.redo.len() > 0,
    ensures
        redone(h, current).0.undo.len() > 0,
        undone(redone(h, current).0, redone(h, current).1) == (h, current),
{
    let (h2, c2) = redone(h, current);
    assert(h2.redo.push(c2) =~= h.redo);
    assert(h2.undo.drop_last() =~= h.undo);
}

/// Law: an undo right after a snapshot was taken brings the document back
/// to that snapshot and leaves it alone for redo.
pub proof fn lemma_undo_after_capture<T>(h: HistoryView<T>, snapshot: T, current: T)
    ensures
        captured(h, snapshot).undo.len() > 0,
        undone(captured(h, snapshot), current).1 == snapshot,
        undone(captured(h, snapshot), current).0.redo == seq![current],
{
    assert(undone(captured(h, snapshot), current).0.redo =~= seq![current]);
}

/// Law: taking a snapshot keeps a bounded history bounded.
pub proof fn lemma_capture_bounded<T>(h: HistoryView<T>, snapshot: T)
    requires
        history_bounded(h),
    ensures
        history_bounded(captured(h, snapshot)),
{
}

/// A preset arrangement of the workspace panels.
#[derive(Debug, Clone, Copy, PartialEq, Eq, Structural)]
pub enum WorkspacePreset {
    LevelDesign,
    Animation,
    Eventing,
    Debug,
    Custom,
}

/// A slot view of tabs with the given active index.
pub open spec fn slot_of(tabs: Seq<DockTab>, active: int) -> SlotView {
    SlotView { tabs, active }
}

/// The layout of a preset; the custom preset starts from level design.
pub open spec fn preset_layout_view(p: WorkspacePreset) -> LayoutView {
    match p {
        WorkspacePreset::Animation => LayoutView {
            show_status_bar: true,
            slots: seq![
                slot_of(seq![DockTab::Assets, DockTab::Toolbox], 0),
                slot_of(seq![DockTab::Scene], 0),
                slot_of(seq![DockTab::Animation, DockTab::Inspector], 0),
                slot_of(seq![DockTab::Diagnostics, DockTab::BuildReport], 0),
            ],
        },
        WorkspacePreset::Eventing => LayoutView {
            show_status_bar: true,
            slots: seq![
                slot_of(seq![DockTab::Outliner, DockTab::Assets], 0),
                slot_of(seq![DockTab::Scene], 0),
                slot_of(seq![DockTab::Inspector, DockTab::Diagnostics], 0),
                slot_of(seq![DockTab::BuildReport, DockTab::Playtest], 0),
            ],
        },
        WorkspacePreset::Debug => LayoutView {
            show_status_bar: true,
            slots: seq![
                slot_of(seq![DockTab::Toolbox, DockTab::Outliner], 1),
                slot_of(seq![DockTab::Scene], 0),
                slot_of(seq![DockTab::Inspector, DockTab::Animation], 0),
                slot_of(
                    seq![DockTab::Diagnostics, DockTab::BuildReport, DockTab::Playtest, DockTab::Assets],
                    0,
                ),
            ],
        },
        _ => LayoutView {
            show_status_bar: true,
            slots: seq![
                slot_of(seq![DockTab::Toolbox, DockTab::Outliner], 0),
                slot_of(seq![DockTab::Scene], 0),
                slot_of(seq![DockTab::Inspector, DockTab::Animation], 0),
                slot_of(
                    seq![DockTab::Assets, DockTab::Diagnostics, DockTab::BuildReport, DockTab::Playtest],
                    0,
                ),
            ],
        },
    }
}

/// A vector of two tabs.
fn two_tabs(a: DockTab, b: DockTab) -> (v: Vec<DockTab>)
    ensures
        v@ == seq![a, b],
{
    let mut v = Vec::new();
    v.push(a);
    v.push(b);
    assert(v@ =~= seq![a, b]);
    v
}

/// A vector of four tabs.
fn four_tabs(a: DockTab, b: DockTab, c: DockTab, d: DockTab) -> (v: Vec<DockTab>)
    ensures
        v@ == seq![a, b, c, d],
{
    let mut v = Vec::new();
    v.push(a);
    v.push(b);
    v.push(c);
    v.push(d);
    assert(v@ =~= seq![a, b, c, d]);
    v
}

/// A layout with the status bar shown and the scene alone in the center.
fn layout_around_scene(left: DockSlot, right: DockSlot, bottom: DockSlot) -> (l: DockLayout)
    ensures
        l@ == (LayoutView {
            show_status_bar: true,
            slots: seq![left@, SlotView { tabs: seq![DockTab::Scene], active: 0 }, right@, bottom@],
        }),
{
    let mut center_tabs = Vec::new();
    center_tabs.push(DockTab::Scene);
    let center = DockSlot::new(center_tabs, 0);
    let l = DockLayout { show_status_bar: true, left, center, right, bottom };
    assert(center@.tabs =~= seq![DockTab::Scene]);
    assert(l@.slots =~= seq![left@, SlotView { tabs: seq![DockTab::Scene], active: 0 }, right@, bottom@]);
    l
}

/// Law: every preset layout is already normal: no tab is docked twice,
/// every active index is valid, and normalizing it changes nothing.
pub proof fn lemma_preset_layout_normal(p: WorkspacePreset)
    ensures
        crate::workspace::layout_wf(preset_layout_view(p)),
        crate::workspace::view_normalized(preset_layout_view(p)) == preset_layout_view(p),
{
    let v = preset_layout_view(p);
    assert forall|r1: int, r2: int, tab: DockTab|
        0 <= r1 < r2 < 4 && #[trigger] v.slots[r1].tabs.contains(tab) implies !#[trigger] v.slots[r2].tabs.contains(
        tab,
    ) by {
        let i = choose|i: int| 0 <= i < v.slots[r1].tabs.len() && v.slots[r1].tabs[i] == tab;
        if v.slots[r2].tabs.contains(tab) {
            let j = choose|j: int| 0 <= j < v.slots[r2].tabs.len() && v.slots[r2].tabs[j] == tab;
            assert(v.slots[r1].tabs[i] == v.slots[r2].tabs[j]);
            assert(false);
        }
    }
    assert forall|r: int| 0 <= r < 4 implies crate::workspace::no_repeats(#[trigger] v.slots[r].tabs) by {}
    assert(crate::workspace::layout_wf(v));
    crate::workspace::lemma_wf_normalized_unchanged(v);
}

/// The name shown for a preset.
pub open spec fn spec_preset_label(p: WorkspacePreset) -> Seq<char> {
    match p {
        WorkspacePreset::LevelDesign => "Level Design"@,
        WorkspacePreset::Animation => "Animation"@,
        WorkspacePreset::Eventing => "Eventing"@,
        WorkspacePreset::Debug => "Debug"@,
        WorkspacePreset::Custom => "Custom"@,
    }
}

impl WorkspacePreset {
    /// The name shown for the preset.
    pub fn label(self) -> (s: &'static str)
        ensures
            s@ == spec_preset_label(self),
    {
        match self {
            WorkspacePreset::LevelDesign => "Level Design",
            WorkspacePreset::Animation => "Animation",
            WorkspacePreset::Eventing => "Eventing",
            WorkspacePreset::Debug => "Debug",
            WorkspacePreset::Custom => "Custom",
        }
    }

    /// The panel layout of the preset.
    pub fn layout(self) -> (l: DockLayout)
        ensures
            l@ == preset_layout_view(self),
    {
        let l = match self {
            WorkspacePreset::Animation => layout_around_scene(
                DockSlot::new(two_tabs(DockTab::Assets, DockTab::Toolbox), 0),
                DockSlot::new(two_tabs(DockTab::Animation, DockTab::Inspector), 0),
                DockSlot::new(two_tabs(DockTab::Diagnostics, DockTab::BuildReport), 0),
            ),
            WorkspacePreset::Eventing => layout_around_scene(
                DockSlot::new(two_tabs(DockTab::Outliner, DockTab::Assets), 0),
                DockSlot::new(two_tabs(DockTab::Inspector, DockTab::Diagnostics), 0),
                DockSlot::new(two_tabs(DockTab::BuildReport, DockTab::Playtest), 0),
            ),
            WorkspacePreset::Debug => layout_around_scene(
                DockSlot::new(two_tabs(DockTab::Toolbox, DockTab::Outliner), 1),
                DockSlot::new(two_tabs(DockTab::Inspector, DockTab::Animation), 0),
                DockSlot::new(
                    four_tabs(DockTab::Diagnostics, DockTab::BuildReport, DockTab::Playtest, DockTab::Assets),
                    0,
                ),
            ),
            _ => layout_around_scene(
                DockSlot::new(two_tabs(DockTab::Toolbox, DockTab::Outliner), 0),
                DockSlot::new(two_tabs(DockTab::Inspector, DockTab::Animation), 0),
                DockSlot::new(
                    four_tabs(DockTab::Assets, DockTab::Diagnostics, DockTab::BuildReport, DockTab::Playtest),
                    0,
                ),
            ),
        };
        assert(l@ =~= preset_layout_view(self));
        l
    }
}

/// The arrangement of the editor's panels: the layout in use, the layouts
/// saved by name, and the saved one in use, if any.
#[derive(Debug, Clone)]
pub struct WorkspaceState {
    pub layout: DockLayout,
    pub saved_layouts: Vec<SavedDockLayout>,
    pub active_saved_layout: Option<String>,
}

impl WorkspaceState {
    /// The workspace of a preset, with nothing saved.
    pub fn for_preset(preset: WorkspacePreset) -> (s: Self)
        ensures
            s.layout@ == preset_layout_view(preset),
            s.saved_layouts@.len() == 0,
            s.active_saved_layout is None,
    {
        WorkspaceState { layout: preset.layout(), saved_layouts: Vec::new(), active_saved_layout: None }
    }
}

/// Whether two tab vectors hold the same tabs in the same order.
fn same_tabs(a: &Vec<DockTab>, b: &Vec<DockTab>) -> (r: bool)
    ensures
        r == (a@ == b@),
{
    if a.len() != b.len() {
        return false;
    }
    let mut i: usize = 0;
    while i < a.len()
        invariant
            a.len() == b.len(),
            i <= a.len(),
            forall|j: int| 0 <= j < i ==> a@[j] == b@[j],
        decreases a.len() - i,
    {
        if a[i] != b[i] {
            return false;
        }
        i = i + 1;
    }
    assert(a@ =~= b@);
    true
}

/// Whether two slots hold the same tabs and active index.
fn same_slot(a: &DockSlot, b: &DockSlot) -> (r: bool)
    ensures
        r == (a@ == b@),
{
    same_tabs(&a.tabs, &b.tabs) && a.active == b.active
}

/// Whether two layouts arrange the same tabs the same way.
pub fn same_layout(a: &DockLayout, b: &DockLayout) -> (r: bool)
    ensures
        r == (a@ == b@),
{
    let r = a.show_status_bar == b.show_status_bar && same_slot(&a.left, &b.left) && same_slot(
        &a.center,
        &b.center,
    ) && same_slot(&a.right, &b.right) && same_slot(&a.bottom, &b.bottom);
    proof {
        if r {
            assert(a@.slots =~= b@.slots);
        }
        if a@ == b@ {
            assert(a@.slots[0] == b@.slots[0]);
            assert(a@.slots[1] == b@.slots[1]);
            assert(a@.slots[2] == b@.slots[2]);
            assert(a@.slots[3] == b@.slots[3]);
        }
    }
    r
}

/// The preset whose arrangement a layout has, checked in the order level
/// design, animation, eventing, debug; custom when none matches.
pub open spec fn spec_detect_preset(v: LayoutView) -> WorkspacePreset {
    if v == preset_layout_view(WorkspacePreset::LevelDesign) {
        WorkspacePreset::LevelDesign
    } else if v == preset_layout_view(WorkspacePreset::Animation) {
        WorkspacePreset::Animation
    } else if v == preset_layout_view(WorkspacePreset::Eventing) {
        WorkspacePreset::Eventing
    } else if v == preset_layout_view(WorkspacePreset::Debug) {
        WorkspacePreset::Debug
    } else {
        WorkspacePreset::Custom
    }
}

/// The preset whose arrangement a layout has, or custom.
pub fn detect_workspace_preset(layout: &DockLayout) -> (p: WorkspacePreset)
    ensures
        p == spec_detect_preset(layout@),
{
    if same_layout(layout, &WorkspacePreset::LevelDesign.layout()) {
        WorkspacePreset::LevelDesign
    } else if same_layout(layout, &WorkspacePreset::Animation.layout()) {
        WorkspacePreset::Animation
    } else if same_layout(layout, &WorkspacePreset::Eventing.layout()) {
        WorkspacePreset::Eventing
    } else if same_layout(layout, &WorkspacePreset::Debug.layout()) {
        WorkspacePreset::Debug
    } else {
        WorkspacePreset::Custom
    }
}

/// The input of frame `index` of the sample trace: run right for the
/// first 36 frames, press jump on frame 8 and hold it through frame 17.
pub open spec fn sample_input_frame(index: int) -> InputFrame {
    InputFrame {
        left: false,
        right: index < 36,
        jump_pressed: index == 8,
        jump_held: 8 <= index < 18,
        climb_up: false,
        climb_down: false,
    }
}

/// The 48 frames of input behind the platformer trace preview.
pub fn sample_platformer_trace_input() -> (frames: Vec<InputFrame>)
    ensures
        frames@.len() == 48,
        forall|i: int| 0 <= i < 48 ==> #[trigger] frames@[i] == sample_input_frame(i),
{
    let mut frames: Vec<InputFrame> = Vec::new();
    let mut index: u32 = 0;
    while index < 48
        invariant
            index <= 48,
            frames@.len() == index,
            forall|i: int| 0 <= i < index ==> #[trigger] frames@[i] == sample_input_frame(i),
        decreases 48 - index,
    {
        frames.push(
            InputFrame {
                left: false,
                right: index < 36,
                jump_pressed: index == 8,
                jump_held: 8 <= index && index < 18,
                climb_up: false,
                climb_down: false,
            },
        );
        index = index + 1;
    }
    frames
}


/// One state of a line walk between two cells: the current cell and the
/// error term of the midpoint rule.
pub ghost struct LineWalk {
    pub x: int,
    pub y: int,
    pub error: int,
}

/// The horizontal span of a line.
pub open spec fn span_x(start: (i32, i32), end: (i32, i32)) -> int {
    if end.0 >= start.0 { end.0 - start.0 } else { start.0 - end.0 }
}

/// The vertical span of a line.
pub open spec fn span_y(start: (i32, i32), end: (i32, i32)) -> int {
    if end.1 >= start.1 { end.1 - start.1 } else { start.1 - end.1 }
}

/// One step of the walk: move along x when twice the error reaches the
/// negated vertical span, along y when it is at most the horizontal span,
/// adjusting the error for each move.
pub open spec fn line_step(start: (i32, i32), end: (i32, i32), w: LineWalk) -> LineWalk {
    let dx = span_x(start, end);
    let dy = -span_y(start, end);
    let sx: int = if start.0 < end.0 { 1 } else { -1 };
    let sy: int = if start.1 < end.1 { 1 } else { -1 };
    let doubled = 2 * w.error;
    let x = if doubled >= dy { w.x + sx } else { w.x };
    let e1 = if doubled >= dy { w.error + dy } else { w.error };
    let y = if doubled <= dx { w.y + sy } else { w.y };
    let e2 = if doubled <= dx { e1 + dx } else { e1 };
    LineWalk { x, y, error: e2 }
}

/// The walk after `n` steps from the start cell.
pub open spec fn line_walk(start: (i32, i32), end: (i32, i32), n: nat) -> LineWalk
    decreases n,
{
    if n == 0 {
        LineWalk { x: start.0 as int, y: start.1 as int, error: span_x(start, end) - span_y(start, end) }
    } else {
        line_step(start, end, line_walk(start, end, (n - 1) as nat))
    }
}

/// The cell reached after `n` steps.
pub open spec fn walk_point(start: (i32, i32), end: (i32, i32), n: int) -> (i32, i32) {
    let w = line_walk(start, end, n as nat);
    (w.x as i32, w.y as i32)
}

/// The walk has reached the end cell after `n` steps.
pub open spec fn walk_at_end(start: (i32, i32), end: (i32, i32), n: int) -> bool {
    let w = line_walk(start, end, n as nat);
    w.x == end.0 && w.y == end.1
}

/// A cell lies in the box spanned by two corners.
pub open spec fn within_box(a: (i32, i32), b: (i32, i32), p: (i32, i32)) -> bool {
    &&& (if a.0 <= b.0 { a.0 <= p.0 <= b.0 } else { b.0 <= p.0 <= a.0 })
    &&& (if a.1 <= b.1 { a.1 <= p.1 <= b.1 } else { b.1 <= p.1 <= a.1 })
}

/// The cells of the line from `start` to `end` by the midpoint rule: the
/// walk from the start up to the first time it reaches the end. Twice the
/// walk's error term reaches up to three times a span, which must stay
/// within `i32`.
pub fn bresenham_line(start: (i32, i32), end: (i32, i32)) -> (points: Vec<(i32, i32)>)
    requires
        3 * span_x(start, end) <= i32::MAX,
        3 * span_y(start, end) <= i32::MAX,
    ensures
        points@.len() >= 1,
        forall|i: int| 0 <= i < points@.len() ==> #[trigger] points@[i] == walk_point(start, end, i),
        walk_at_end(start, end, points@.len() - 1),
        forall|i: int| 0 <= i < points@.len() - 1 ==> !#[trigger] walk_at_end(start, end, i),
        points@[0] == start,
        points@.last() == end,
        forall|i: int| 0 <= i < points@.len() ==> #[trigger] within_box(start, end, points@[i]),
{
    let (x1, y1) = end;
    let mut x0 = start.0;
    let mut y0 = start.1;
    let dx: i32 = if x1 >= x0 { x1 - x0 } else { x0 - x1 };
    let sx: i32 = if x0 < x1 { 1 } else { -1 };
    let dy: i32 = if y1 >= y0 { -(y1 - y0) } else { -(y0 - y1) };
    let sy: i32 = if y0 < y1 { 1 } else { -1 };
    let mut error: i32 = dx + dy;
    let ghost big_y: int = -dy;
    let ghost mut steps: nat = 0;
    let mut points: Vec<(i32, i32)> = Vec::new();
    points.push((x0, y0));
    proof {
        assert(line_walk(start, end, 0) == LineWalk { x: x0 as int, y: y0 as int, error: error as int });
        assert(sx * (x1 - x0) == dx) by (nonlinear_arith)
            requires
                sx == (if x0 < x1 { 1int } else { -1int }),
                dx == (if x1 >= x0 { x1 - x0 } else { x0 - x1 }),
        ;
        assert(sy * (y1 - y0) == big_y) by (nonlinear_arith)
            requires
                sy == (if y0 < y1 { 1int } else { -1int }),
                big_y == (if y1 >= y0 { y1 - y0 } else { y0 - y1 }),
        ;
        assert(big_y * dx == dx * big_y) by (nonlinear_arith);
    }
    while !(x0 == x1 && y0 == y1)
        invariant
            dx == span_x(start, end),
            big_y == span_y(start, end),
            dy == -big_y,
            3 * dx <= i32::MAX,
            3 * big_y <= i32::MAX,
            end == (x1, y1),
            sx == (if start.0 < end.0 { 1int } else { -1int }),
            sy == (if start.1 < end.1 { 1int } else { -1int }),
            line_walk(start, end, steps) == (LineWalk { x: x0 as int, y: y0 as int, error: error as int }),
            0 <= sx * (x1 - x0) <= dx,
            0 <= sy * (y1 - y0) <= big_y,
            error == big_y * (sx * (x1 - x0)) - dx * (sy * (y1 - y0)) + dx - big_y,
            -3 * big_y <= 2 * error <= 3 * dx,
            points@.len() == steps + 1,
            forall|i: int| 0 <= i <= steps ==> #[trigger] points@[i] == walk_point(start, end, i),
            forall|i: int| 0 <= i < steps ==> !#[trigger] walk_at_end(start, end, i),
            forall|i: int| 0 <= i <= steps ==> #[trigger] within_box(start, end, points@[i]),
        decreases sx * (x1 - x0) + sy * (y1 - y0),
    {
        let ghost rx: int = sx * (x1 - x0);
        let ghost ry: int = sy * (y1 - y0);
        proof {
            assert(!walk_at_end(start, end, steps as int));
            if rx == 0 {
                assert(ry >= 1) by {
                    if ry == 0 {
                        assert(y1 - y0 == 0) by (nonlinear_arith)
                            requires
                                ry == sy * (y1 - y0),
                                sy == 1 || sy == -1,
                                ry == 0,
                        ;
                        assert(x1 - x0 == 0) by (nonlinear_arith)
                            requires
                                rx == sx * (x1 - x0),
                                sx == 1 || sx == -1,
                                rx == 0,
                        ;
                    }
                }
                assert(dx * ry >= dx) by (nonlinear_arith)
                    requires
                        ry >= 1,
                        dx >= 0,
                ;
                assert(error <= -big_y) by (nonlinear_arith)
                    requires
                        error == big_y * rx - dx * ry + dx - big_y,
                        rx == 0,
                        dx * ry >= dx,
                ;
            }
            if ry == 0 {
                assert(rx >= 1) by {
                    if rx == 0 {
                        assert(y1 - y0 == 0) by (nonlinear_arith)
                            requires
                                ry == sy * (y1 - y0),
                                sy == 1 || sy == -1,
                                ry == 0,
                        ;
                        assert(x1 - x0 == 0) by (nonlinear_arith)
                            requires
                                rx == sx * (x1 - x0),
                                sx == 1 || sx == -1,
                                rx == 0,
                        ;
                    }
                }
                assert(big_y * rx >= big_y) by (nonlinear_arith)
                    requires
                        rx >= 1,
                        big_y >= 0,
                ;
                assert(error >= dx) by (nonlinear_arith)
                    requires
                        error == big_y * rx - dx * ry + dx - big_y,
                        ry == 0,
                        big_y * rx >= big_y,
                ;
            }
            assert(2 * error >= -big_y ==> rx >= 1);
            assert(2 * error <= dx ==> ry >= 1);
            if rx >= 1 {
                assert(i32::MIN <= x0 + sx <= i32::MAX) by (nonlinear_arith)
                    requires
                        rx == sx * (x1 - x0),
                        rx >= 1,
                        sx == 1 || sx == -1,
                        i32::MIN <= x0 <= i32::MAX,
                        i32::MIN <= x1 <= i32::MAX,
                ;
            }
            if ry >= 1 {
                assert(i32::MIN <= y0 + sy <= i32::MAX) by (nonlinear_arith)
                    requires
                        ry == sy * (y1 - y0),
                        ry >= 1,
                        sy == 1 || sy == -1,
                        i32::MIN <= y0 <= i32::MAX,
                        i32::MIN <= y1 <= i32::MAX,
                ;
            }
        }
        let doubled = 2 * error;
        let ghost old_error: int = error as int;
        let ghost old_x: int = x0 as int;
        let ghost old_y: int = y0 as int;
        if doubled >= dy {
            error = error + dy;
            x0 = x0 + sx;
            proof {
                assert(sx * (x1 - x0) == rx - 1) by (nonlinear_arith)
                    requires
                        x0 == old_x + sx,
                        rx == sx * (x1 - old_x),
                        sx == 1 || sx == -1,
                ;
                assert(big_y * (sx * (x1 - x0)) == big_y * rx - big_y) by (nonlinear_arith)
                    requires
                        sx * (x1 - x0) == rx - 1,
                ;
            }
        }
        if doubled <= dx {
            error = error + dx;
            y0 = y0 + sy;
            proof {
                assert(sy * (y1 - y0) == ry - 1) by (nonlinear_arith)
                    requires
                        y0 == old_y + sy,
                        ry == sy * (y1 - old_y),
                        sy == 1 || sy == -1,
                ;
                assert(dx * (sy * (y1 - y0)) == dx * ry - dx) by (nonlinear_arith)
                    requires
                        sy * (y1 - y0) == ry - 1,
                ;
            }
        }
        proof {
            assert(sx * (x1 - x0) == rx - (if 2 * old_error >= -big_y { 1int } else { 0int })) by (nonlinear_arith)
                requires
                    x0 == old_x + (if 2 * old_error >= -big_y { sx as int } else { 0int }),
                    rx == sx * (x1 - old_x),
                    sx == 1 || sx == -1,
            ;
            assert(sy * (y1 - y0) == ry - (if 2 * old_error <= dx { 1int } else { 0int })) by (nonlinear_arith)
                requires
                    y0 == old_y + (if 2 * old_error <= dx { sy as int } else { 0int }),
                    ry == sy * (y1 - old_y),
                    sy == 1 || sy == -1,
            ;
            steps = steps + 1;
            assert(within_box(start, end, (x0, y0))) by (nonlinear_arith)
                requires
                    0 <= sx * (x1 - x0) <= dx,
                    0 <= sy * (y1 - y0) <= big_y,
                    sx == (if start.0 < end.0 { 1int } else { -1int }),
                    sy == (if start.1 < end.1 { 1int } else { -1int }),
                    dx == span_x(start, end),
                    big_y == span_y(start, end),
                    end == (x1, y1),
            ;
        }
        points.push((x0, y0));
    }
    proof {
        assert(walk_at_end(start, end, steps as int));
    }
    points
}

/// Where a playtest of a scene starts: at the selected spawn or checkpoint
/// (the first one with its id) when the mode asks for one and the
/// selection holds one, else at the scene's default start.
pub open spec fn playtest_start_is(
    scene: SceneResource,
    mode: PlaytestStartMode,
    selected_spawn: Option<usize>,
    selected_checkpoint: Option<usize>,
    position: PointI16,
) -> bool {
    match mode {
        PlaytestStartMode::SelectedSpawn => match selected_spawn {
            Some(i) if i < scene.spawns@.len() => exists|j: int|
                #[trigger] is_first_spawn(scene.spawns@, scene.spawns@[i as int].id@, j) && position
                    == scene.spawns@[j].position,
            _ => position == spec_default_start(scene),
        },
        PlaytestStartMode::SelectedCheckpoint => match selected_checkpoint {
            Some(i) if i < scene.checkpoints@.len() => exists|j: int|
                #[trigger] is_first_checkpoint(scene.checkpoints@, scene.checkpoints@[i as int].id@, j)
                    && position == scene.checkpoints@[j].position,
            _ => position == spec_default_start(scene),
        },
        PlaytestStartMode::SceneStart => position == spec_default_start(scene),
    }
}

/// The status shown when a playtest starts.
pub open spec fn playtest_start_status(
    scene: SceneResource,
    mode: PlaytestStartMode,
    selected_spawn: Option<usize>,
    selected_checkpoint: Option<usize>,
) -> Seq<char> {
    let head = "Started '"@ + scene.id@ + "' from "@;
    match mode {
        PlaytestStartMode::SelectedSpawn => match selected_spawn {
            Some(i) if i < scene.spawns@.len() => head + "spawn '"@ + scene.spawns@[i as int].id@ + "'"@,
            _ => head + "its default start"@,
        },
        PlaytestStartMode::SelectedCheckpoint => match selected_checkpoint {
            Some(i) if i < scene.checkpoints@.len() => head + "checkpoint '"@ + scene.checkpoints@[i as int].id@
                + "'"@,
            _ => head + "its default start"@,
        },
        PlaytestStartMode::SceneStart => head + "its default start"@,
    }
}

/// Starts a playtest of a scene in the given mode, with the status to
/// show.
pub fn start_playtest(
    scene: SceneResource,
    profile: PhysicsProfile,
    mode: PlaytestStartMode,
    selected_spawn: Option<usize>,
    selected_checkpoint: Option<usize>,
) -> (r: (PlaytestSession, String))
    ensures
        exists|p: PointI16|
            playtest_start_is(scene, mode, selected_spawn, selected_checkpoint, p) && #[trigger] r.0.is_reset_at(
                scene,
                profile,
                p,
            ),
        r.1@ == playtest_start_status(scene, mode, selected_spawn, selected_checkpoint),
{
    let ghost scene0 = scene;
    let ghost profile0 = profile;
    let mut status = String::from_str("Started '");
    status.append(scene.id.as_str());
    status.append("' from ");
    let spawn_id: Option<String> = match (mode, selected_spawn) {
        (PlaytestStartMode::SelectedSpawn, Some(i)) => if i < scene.spawns.len() {
            Some(scene.spawns[i].id.clone())
        } else {
            None
        },
        _ => None,
    };
    let checkpoint_id: Option<String> = match (mode, selected_checkpoint) {
        (PlaytestStartMode::SelectedCheckpoint, Some(i)) => if i < scene.checkpoints.len() {
            Some(scene.checkpoints[i].id.clone())
        } else {
            None
        },
        _ => None,
    };
    assert(spawn_id is Some ==> (mode == PlaytestStartMode::SelectedSpawn && selected_spawn is Some
        && selected_spawn->0 < scene0.spawns@.len() && spawn_id->0@ == scene0.spawns@[selected_spawn->0 as int].id@));
    assert(spawn_id is None ==> !(mode == PlaytestStartMode::SelectedSpawn && selected_spawn is Some
        && selected_spawn->0 < scene0.spawns@.len()));
    assert(checkpoint_id is Some ==> (mode == PlaytestStartMode::SelectedCheckpoint && selected_checkpoint is Some
        && selected_checkpoint->0 < scene0.checkpoints@.len() && checkpoint_id->0@
        == scene0.checkpoints@[selected_checkpoint->0 as int].id@));
    assert(checkpoint_id is None ==> !(mode == PlaytestStartMode::SelectedCheckpoint && selected_checkpoint is Some
        && selected_checkpoint->0 < scene0.checkpoints@.len()));
    let mut session = PlaytestSession::new(scene, profile);
    let ghost mut start_at = spec_default_start(scene0);
    match spawn_id {
        Some(id) => {
            let r = session.reset_to_spawn_id(id.as_str());
            proof {
                let i = selected_spawn->0 as int;
                if r is Err {
                    assert(scene0.spawns@[i].id@ != id@);
                }
                let j = choose|j: int|
                    #![trigger scene0.spawns@[j]]
                    is_first_spawn(scene0.spawns@, id@, j) && session.is_reset_at(
                        scene0,
                        profile0,
                        scene0.spawns@[j].position,
                    );
                assert(is_first_spawn(scene0.spawns@, scene0.spawns@[i].id@, j));
                assert(playtest_start_is(scene0, mode, selected_spawn, selected_checkpoint, scene0.spawns@[j].position));
                assert(session.is_reset_at(scene0, profile0, scene0.spawns@[j].position));
                start_at = scene0.spawns@[j].position;
            }
            status.append("spawn '");
            status.append(id.as_str());
            status.append("'");
        },
        None => match checkpoint_id {
            Some(id) => {
                let r = session.reset_to_checkpoint_id(id.as_str());
                proof {
                    let i = selected_checkpoint->0 as int;
                    if r is Err {
                        assert(scene0.checkpoints@[i].id@ != id@);
                    }
                    let j = choose|j: int|
                        #![trigger scene0.checkpoints@[j]]
                        is_first_checkpoint(scene0.checkpoints@, id@, j) && session.is_reset_at(
                            scene0,
                            profile0,
                            scene0.checkpoints@[j].position,
                        );
                    assert(is_first_checkpoint(scene0.checkpoints@, scene0.checkpoints@[i].id@, j));
                    assert(playtest_start_is(
                        scene0,
                        mode,
                        selected_spawn,
                        selected_checkpoint,
                        scene0.checkpoints@[j].position,
                    ));
                    assert(session.is_reset_at(scene0, profile0, scene0.checkpoints@[j].position));
                    start_at = scene0.checkpoints@[j].position;
                }
                status.append("checkpoint '");
                status.append(id.as_str());
                status.append("'");
            },
            None => {
                session.reset_to_default_start();
                status.append("its default start");
                assert(playtest_start_is(
                    scene0,
                    mode,
                    selected_spawn,
                    selected_checkpoint,
                    spec_default_start(scene0),
                ));
                assert(session.is_reset_at(scene0, profile0, spec_default_start(scene0)));
            },
        },
    }
    assert(playtest_start_is(scene0, mode, selected_spawn, selected_checkpoint, start_at));
    assert(session.is_reset_at(scene0, profile0, start_at));
    let r = (session, status);
    assert(r.0.is_reset_at(scene0, profile0, start_at));
    assert(exists|p: PointI16|
        playtest_start_is(scene0, mode, selected_spawn, selected_checkpoint, p) && #[trigger] r.0.is_reset_at(
            scene0,
            profile0,
            p,
        ));
    r
}

/// The status line of a running playtest: frame, position in pixels and
/// contacts.
pub open spec fn spec_playtest_status_line(s: PlaytestState) -> Seq<char> {
    "Frame "@ + decimal(s.frame as nat) + "  x="@ + signed_decimal((s.x_fp as int) / 256) + " y="@
        + signed_decimal((s.y_fp as int) / 256) + "  grounded="@ + bool_text(s.grounded) + " ladder="@
        + bool_text(s.on_ladder) + " hazard="@ + bool_text(s.touching_hazard)
}

/// A whole number in decimal, with a minus sign when negative.
pub open spec fn signed_decimal(n: int) -> Seq<char> {
    if n < 0 { seq!['-'] + decimal((-n) as nat) } else { decimal(n as nat) }
}

/// `true` or `false`.
pub open spec fn bool_text(b: bool) -> Seq<char> {
    if b { "true"@ } else { "false"@ }
}

/// Appends a whole number in decimal.
fn push_signed(s: &mut String, n: i32)
    ensures
        final(s)@ == old(s)@ + signed_decimal(n as int),
{
    if n < 0 {
        crate::text::push_char(s, '-');
        let m: i64 = -(n as i64);
        assert(m > 0);
        push_decimal(s, m as u128);
    } else {
        push_decimal(s, n as u128);
    }
    assert(final(s)@ =~= old(s)@ + signed_decimal(n as int));
}

/// The status line of a running playtest.
pub fn playtest_status_line(state: &PlaytestState) -> (s: String)
    ensures
        s@ == spec_playtest_status_line(*state),
{
    let mut s = String::from_str("Frame ");
    push_decimal(&mut s, state.frame as u128);
    s.append("  x=");
    let x = state.x_fp;
    let y = state.y_fp;
    assert((x >> 8) as int == (x as int) / 256) by (bit_vector);
    assert((y >> 8) as int == (y as int) / 256) by (bit_vector);
    push_signed(&mut s, x >> 8);
    s.append(" y=");
    push_signed(&mut s, y >> 8);
    s.append("  grounded=");
    s.append(if state.grounded { "true" } else { "false" });
    s.append(" ladder=");
    s.append(if state.on_ladder { "true" } else { "false" });
    s.append(" hazard=");
    s.append(if state.touching_hazard { "true" } else { "false" });
    s
}

} // verus!
