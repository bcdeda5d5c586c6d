//! What the scene canvas does with a pointer stroke: sample a tile, span a
//! selection, or edit the cell or object under the pointer with the active
//! tool; and keeping the editor's selected items within the project.
use vstd::prelude::*;
use vstd::string::StringExecFns;
use crate::bundle::{first_with_id, tileset_ids, ProjectBundle};
use crate::editor::{sanitize_optional_index, spec_sanitize_index, EditorTool, TileSelectionRect};
use crate::layers::{build_scene_selection, holds_point, meets_rect, picked, pixels_fit, SceneSelection};
use crate::preview::PreviewFocus;
use crate::project::{PointI16, SceneResource, TileLayer};
use crate::scene_edit::edited_layer;
use crate::text::{decimal, push_decimal};

verus! {

/// `i` clamped to the last of `len` items; 0 for no items.
pub open spec fn clamp_index(i: int, len: int) -> int {
    if len == 0 {
        0
    } else if i < len - 1 {
        i
    } else {
        len - 1
    }
}

fn clamp_to(i: usize, len: usize) -> (r: usize)
    ensures
        r == clamp_index(i as int, len as int),
{
    if len == 0 {
        0
    } else if i < len - 1 {
        i
    } else {
        len - 1
    }
}

/// What the editor has selected in the project.
#[derive(Debug, Clone, Copy, PartialEq, Eq, Default)]
pub struct EditorSelection {
    pub scene: usize,
    pub layer: usize,
    pub tile: usize,
    pub animation: usize,
    pub spawn: Option<usize>,
    pub checkpoint: Option<usize>,
    pub entity: Option<usize>,
    pub trigger: Option<usize>,
    pub preview_focus: PreviewFocus,
}

/// The tile selected for painting, kept within the tileset of the selected
/// layer; 0 when the layer or its tileset is missing.
pub open spec fn synced_tile(b: ProjectBundle, scene: SceneResource, layer: int, tile: int) -> int {
    if 0 <= layer < scene.layers@.len() {
        match first_with_id(tileset_ids(b.tilesets@), scene.layers@[layer].tileset_id@) {
            Some(t) => clamp_index(tile, b.tilesets@[t].tiles@.len() as int),
            None => 0,
        }
    } else {
        0
    }
}

/// The selection kept within a project; everything reset without one.
pub open spec fn synced_selection(s: EditorSelection, bundle: Option<ProjectBundle>) -> EditorSelection {
    match bundle {
        None => EditorSelection {
            scene: 0,
            layer: 0,
            tile: 0,
            animation: 0,
            spawn: None,
            checkpoint: None,
            entity: None,
            trigger: None,
            preview_focus: s.preview_focus,
        },
        Some(b) => {
            let scene_i = clamp_index(s.scene as int, b.scenes@.len() as int);
            let animation = clamp_index(s.animation as int, b.animations@.len() as int);
            let base = if scene_i < b.scenes@.len() {
                let scene = b.scenes@[scene_i];
                let layer = clamp_index(s.layer as int, scene.layers@.len() as int);
                EditorSelection {
                    scene: scene_i as usize,
                    layer: layer as usize,
                    tile: synced_tile(b, scene, layer, s.tile as int) as usize,
                    animation: animation as usize,
                    spawn: spec_sanitize_index(s.spawn, scene.spawns@.len() as int),
                    checkpoint: spec_sanitize_index(s.checkpoint, scene.checkpoints@.len() as int),
                    entity: spec_sanitize_index(s.entity, scene.entities@.len() as int),
                    trigger: spec_sanitize_index(s.trigger, scene.triggers@.len() as int),
                    preview_focus: s.preview_focus,
                }
            } else {
                EditorSelection {
                    scene: scene_i as usize,
                    layer: 0,
                    tile: 0,
                    animation: animation as usize,
                    spawn: None,
                    checkpoint: None,
                    entity: None,
                    trigger: None,
                    preview_focus: s.preview_focus,
                }
            };
            let focus = if base.preview_focus == PreviewFocus::Entity && base.entity is None {
                PreviewFocus::Nothing
            } else if base.preview_focus == PreviewFocus::Animation && b.animations@.len() == 0 {
                PreviewFocus::Nothing
            } else {
                base.preview_focus
            };
            EditorSelection { preview_focus: focus, ..base }
        },
    }
}

impl EditorSelection {
    /// Keeps every selected index within the project: the scene, layer,
    /// animation and painting tile clamped to what exists, the selected
    /// objects kept within their lists, and the preview no longer following
    /// an entity or animation that is gone. Without a project everything
    /// is reset.
    pub fn sync(&mut self, bundle: Option<&ProjectBundle>)
        ensures
            *final(self) == synced_selection(
                *old(self),
                match bundle {
                    Some(b) => Some(*b),
                    None => None,
                },
            ),
    {
        let b = match bundle {
            None => {
                self.scene = 0;
                self.layer = 0;
                self.tile = 0;
                self.animation = 0;
                self.spawn = None;
                self.checkpoint = None;
                self.entity = None;
                self.trigger = None;
                return;
            },
            Some(b) => b,
        };
        self.scene = clamp_to(self.scene, b.scenes.len());
        self.animation = clamp_to(self.animation, b.animations.len());
        if self.scene < b.scenes.len() {
            let scene = &b.scenes[self.scene];
            self.layer = clamp_to(self.layer, scene.layers.len());
            self.tile = if self.layer < scene.layers.len() {
                match b.tileset(scene.layers[self.layer].tileset_id.as_str()) {
                    Some(tileset) => clamp_to(self.tile, tileset.tiles.len()),
                    None => 0,
                }
            } else {
                0
            };
            self.spawn = sanitize_optional_index(self.spawn, scene.spawns.len());
            self.checkpoint = sanitize_optional_index(self.checkpoint, scene.checkpoints.len());
            self.entity = sanitize_optional_index(self.entity, scene.entities.len());
            self.trigger = sanitize_optional_index(self.trigger, scene.triggers.len());
        } else {
            self.layer = 0;
            self.tile = 0;
            self.spawn = None;
            self.checkpoint = None;
            self.entity = None;
            self.trigger = None;
        }
        let entity_gone = match self.preview_focus {
            PreviewFocus::Entity => self.entity.is_none(),
            _ => false,
        };
        let animation_gone = match self.preview_focus {
            PreviewFocus::Animation => b.animations.len() == 0,
            _ => false,
        };
        if entity_gone || animation_gone {
            self.preview_focus = PreviewFocus::Nothing;
        }
    }
}

/// What the pointer did on the scene canvas during one frame.
#[derive(Debug, Clone, Copy, PartialEq, Eq, Default)]
pub struct CanvasOutcome {
    /// The tile under the pointer.
    pub hovered_tile: Option<(usize, usize)>,
    /// The cell whose tile was picked up.
    pub sampled_cell: Option<usize>,
    /// The cell under a primary-button stroke.
    pub primary_cell: Option<usize>,
    /// The cell under a secondary-button stroke.
    pub secondary_cell: Option<usize>,
    /// The pixel position of the cell under the pointer.
    pub world_cell_position: PointI16,
    /// Where a selection drag started.
    pub selection_started: Option<(usize, usize)>,
    /// Where a selection drag ended.
    pub selection_finished: Option<(usize, usize)>,
    /// The tile clicked with the selection tool.
    pub selection_clicked: Option<(usize, usize)>,
}

/// What the canvas remembers between frames.
#[derive(Debug, Clone, Copy, PartialEq, Eq, Default)]
pub struct CanvasState {
    pub last_canvas_tile: Option<(usize, usize)>,
    pub selection_drag_anchor: Option<(usize, usize)>,
    pub active_canvas_cell: Option<usize>,
}

/// What a canvas frame asks the editor to do.
#[derive(Debug, Clone, Copy, PartialEq, Eq)]
pub enum CanvasStep {
    /// Pick up the tile of this cell.
    Sample(usize),
    /// Select the tiles of this rectangle.
    Select(TileSelectionRect),
    /// Edit this cell with the active tool; `primary` is whether the
    /// primary button made the stroke.
    Edit { cell: usize, primary: bool },
    /// Nothing to do.
    Idle,
}

/// The step a canvas frame asks for, and the canvas state after it.
pub open spec fn spec_canvas_step(state: CanvasState, tool: EditorTool, o: CanvasOutcome) -> (CanvasStep, CanvasState) {
    let state = CanvasState { last_canvas_tile: o.hovered_tile, ..state };
    if o.sampled_cell is Some {
        (CanvasStep::Sample(o.sampled_cell->0), CanvasState { active_canvas_cell: None, ..state })
    } else if tool == EditorTool::Select {
        let anchor = if o.selection_started is Some { o.selection_started } else { state.selection_drag_anchor };
        let step = if o.selection_finished is Some {
            let end = o.selection_finished->0;
            let start = if anchor is Some { anchor->0 } else { end };
            CanvasStep::Select(from_points_spec(start, end))
        } else if o.selection_clicked is Some {
            let t = o.selection_clicked->0;
            CanvasStep::Select(from_points_spec(t, t))
        } else {
            CanvasStep::Idle
        };
        (step, CanvasState { selection_drag_anchor: anchor, active_canvas_cell: None, ..state })
    } else {
        let cell = if o.primary_cell is Some { o.primary_cell } else { o.secondary_cell };
        match cell {
            None => (CanvasStep::Idle, CanvasState { active_canvas_cell: None, ..state }),
            Some(c) => if state.active_canvas_cell == Some(c) {
                (CanvasStep::Idle, state)
            } else {
                (CanvasStep::Edit { cell: c, primary: o.primary_cell is Some }, state)
            },
        }
    }
}

/// The rectangle spanned by two corner tiles.
pub open spec fn from_points_spec(a: (usize, usize), b: (usize, usize)) -> TileSelectionRect {
    TileSelectionRect {
        min_x: if a.0 <= b.0 { a.0 } else { b.0 },
        min_y: if a.1 <= b.1 { a.1 } else { b.1 },
        max_x: if a.0 >= b.0 { a.0 } else { b.0 },
        max_y: if a.1 >= b.1 { a.1 } else { b.1 },
    }
}

/// Reads one frame of the canvas: remembers the hovered tile, and decides
/// between sampling a tile, spanning a selection (with the selection
/// tool), editing the cell under the stroke (once per cell while the
/// stroke stays on it), or nothing.
pub fn canvas_step(state: &mut CanvasState, tool: EditorTool, outcome: &CanvasOutcome) -> (step: CanvasStep)
    ensures
        (step, *final(state)) == spec_canvas_step(*old(state), tool, *outcome),
{
    state.last_canvas_tile = outcome.hovered_tile;
    if let Some(cell) = outcome.sampled_cell {
        state.active_canvas_cell = None;
        return CanvasStep::Sample(cell);
    }
    if let EditorTool::Select = tool {
        if outcome.selection_started.is_some() {
            state.selection_drag_anchor = outcome.selection_started;
        }
        let step = if let Some(end) = outcome.selection_finished {
            let start = match state.selection_drag_anchor {
                Some(a) => a,
                None => end,
            };
            CanvasStep::Select(TileSelectionRect::from_points(start, end))
        } else if let Some(t) = outcome.selection_clicked {
            CanvasStep::Select(TileSelectionRect::from_points(t, t))
        } else {
            CanvasStep::Idle
        };
        state.active_canvas_cell = None;
        return step;
    }
    let cell = if outcome.primary_cell.is_some() { outcome.primary_cell } else { outcome.secondary_cell };
    match cell {
        None => {
            state.active_canvas_cell = None;
            CanvasStep::Idle
        },
        Some(c) => {
            let same = match state.active_canvas_cell {
                Some(a) => a == c,
                None => false,
            };
            if same {
                CanvasStep::Idle
            } else {
                CanvasStep::Edit { cell: c, primary: outcome.primary_cell.is_some() }
            }
        },
    }
}

/// One edit of the scene at the pointer.
#[derive(Debug, Clone, Copy, PartialEq, Eq)]
pub enum CanvasEdit {
    PaintTile(u16),
    SetSolid(bool),
    SetLadder(bool),
    SetHazard(bool),
    MoveSpawn(usize, PointI16),
    MoveCheckpoint(usize, PointI16),
    MoveEntity(usize, PointI16),
    MoveTrigger(usize, PointI16),
}

/// The edit a tool makes: painting the selected tile (or erasing it), a
/// collision flag set by a primary stroke and cleared by a secondary one,
/// or the selected object moved to the pointer's cell.
pub open spec fn spec_canvas_edit(
    tool: EditorTool,
    selected_tile: u16,
    primary: bool,
    sel: EditorSelection,
    pos: PointI16,
) -> Option<CanvasEdit> {
    match tool {
        EditorTool::Select => None,
        EditorTool::Paint => Some(CanvasEdit::PaintTile(selected_tile)),
        EditorTool::Erase => Some(CanvasEdit::PaintTile(0)),
        EditorTool::Solid => Some(CanvasEdit::SetSolid(primary)),
        EditorTool::Ladder => Some(CanvasEdit::SetLadder(primary)),
        EditorTool::Hazard => Some(CanvasEdit::SetHazard(primary)),
        EditorTool::Spawn => match sel.spawn {
            Some(i) => Some(CanvasEdit::MoveSpawn(i, pos)),
            None => None,
        },
        EditorTool::Checkpoint => match sel.checkpoint {
            Some(i) => Some(CanvasEdit::MoveCheckpoint(i, pos)),
            None => None,
        },
        EditorTool::Entity => match sel.entity {
            Some(i) => Some(CanvasEdit::MoveEntity(i, pos)),
            None => None,
        },
        EditorTool::Trigger => match sel.trigger {
            Some(i) => Some(CanvasEdit::MoveTrigger(i, pos)),
            None => None,
        },
    }
}

/// The edit the active tool makes at the pointer.
pub fn canvas_edit(tool: EditorTool, selected_tile: u16, primary: bool, sel: &EditorSelection, pos: PointI16) -> (r:
    Option<CanvasEdit>)
    ensures
        r == spec_canvas_edit(tool, selected_tile, primary, *sel, pos),
{
    match tool {
        EditorTool::Select => None,
        EditorTool::Paint => Some(CanvasEdit::PaintTile(selected_tile)),
        EditorTool::Erase => Some(CanvasEdit::PaintTile(0)),
        EditorTool::Solid => Some(CanvasEdit::SetSolid(primary)),
        EditorTool::Ladder => Some(CanvasEdit::SetLadder(primary)),
        EditorTool::Hazard => Some(CanvasEdit::SetHazard(primary)),
        EditorTool::Spawn => match sel.spawn {
            Some(i) => Some(CanvasEdit::MoveSpawn(i, pos)),
            None => None,
        },
        EditorTool::Checkpoint => match sel.checkpoint {
            Some(i) => Some(CanvasEdit::MoveCheckpoint(i, pos)),
            None => None,
        },
        EditorTool::Entity => match sel.entity {
            Some(i) => Some(CanvasEdit::MoveEntity(i, pos)),
            None => None,
        },
        EditorTool::Trigger => match sel.trigger {
            Some(i) => Some(CanvasEdit::MoveTrigger(i, pos)),
            None => None,
        },
    }
}

/// The status shown when a paint stroke meets a locked layer.
pub open spec fn spec_locked_status(scene: SceneResource, selected_layer: int) -> Seq<char> {
    if scene.layers@.len() > 0 {
        "Layer '"@ + scene.layers@[edited_layer(selected_layer, scene.layers@.len() as int)].id@ + "' is locked."@
    } else {
        "Active layer is locked."@
    }
}

/// The status shown when a paint stroke meets a locked layer.
pub fn locked_status(scene: &SceneResource, selected_layer: usize) -> (s: String)
    ensures
        s@ == spec_locked_status(*scene, selected_layer as int),
{
    let n = scene.layers.len();
    if n > 0 {
        let mut s = String::from_str("Layer '");
        s.append(scene.layers[if selected_layer < n - 1 { selected_layer } else { n - 1 }].id.as_str());
        s.append("' is locked.");
        s
    } else {
        String::from_str("Active layer is locked.")
    }
}

/// The status after a paint stroke.
pub open spec fn spec_paint_status(tile: u16, layer_id: Seq<char>) -> Seq<char> {
    if tile == 0 {
        "Erased tile from '"@ + layer_id + "'"@
    } else {
        "Painted tile "@ + decimal(tile as nat) + " into '"@ + layer_id + "'"@
    }
}

/// Sets cell `i` of a flag list; `false` past its end.
fn set_flag(flags: &mut Vec<bool>, i: usize, v: bool) -> (done: bool)
    ensures
        done == (i < old(flags)@.len()),
        done ==> final(flags)@ == old(flags)@.update(i as int, v),
        !done ==> *final(flags) == *old(flags),
{
    if i < flags.len() {
        flags.set(i, v);
        true
    } else {
        false
    }
}

/// The parts of two scenes agree: always the id, kind, sizes, background
/// and scripts; the layers, collision flags and object lists where asked.
pub open spec fn scene_parts_same(
    a: SceneResource,
    b: SceneResource,
    layers: bool,
    collision: bool,
    spawns: bool,
    checkpoints: bool,
    entities: bool,
    triggers: bool,
) -> bool {
    &&& a.id == b.id && a.kind == b.kind && a.size_tiles == b.size_tiles
    &&& a.chunk_size_tiles == b.chunk_size_tiles && a.background_color_index == b.background_color_index
    &&& a.scripts == b.scripts
    &&& layers ==> a.layers == b.layers
    &&& collision ==> a.collision == b.collision
    &&& spawns ==> a.spawns == b.spawns
    &&& checkpoints ==> a.checkpoints == b.checkpoints
    &&& entities ==> a.entities == b.entities
    &&& triggers ==> a.triggers == b.triggers
}

/// The status after moving an object.
pub open spec fn spec_move_status(kind: Seq<char>, id: Seq<char>) -> Seq<char> {
    "Moved "@ + kind + " '"@ + id + "'"@
}

fn move_status(kind: &str, id: &str) -> (s: String)
    ensures
        s@ == spec_move_status(kind@, id@),
{
    let mut s = String::from_str("Moved ");
    s.append(kind);
    s.append(" '");
    s.append(id);
    s.append("'");
    s
}

/// Applies a canvas edit to the scene: a tile into the cell of the edited
/// layer (the selected one, clamped to the last), a collision flag of the
/// cell, or the selected object moved to a new top-left pixel. The status
/// to report; `None`, with the scene unchanged, when the cell or object is
/// missing.
pub fn apply_canvas_edit(scene: &mut SceneResource, selected_layer: usize, cell: usize, edit: CanvasEdit) -> (status:
    Option<String>)
    ensures
        status is None ==> *final(scene) == *old(scene),
        ({
            let o = *old(scene);
            let f = *final(scene);
            match edit {
                CanvasEdit::PaintTile(t) => {
                    let n = o.layers@.len() as int;
                    let k = edited_layer(selected_layer as int, n);
                    if n > 0 && cell < o.layers@[k].tiles@.len() {
                        &&& scene_parts_same(f, o, false, true, true, true, true, true)
                        &&& crate::scene_edit::layer_replaced(o.layers@, f.layers@, k, o.layers@[k].tiles@.update(cell as int, t))
                        &&& status matches Some(s) && s@ == spec_paint_status(t, o.layers@[k].id@)
                    } else {
                        status is None
                    }
                },
                CanvasEdit::SetSolid(v) => if cell < o.collision.solids@.len() {
                    &&& scene_parts_same(f, o, true, false, true, true, true, true)
                    &&& f.collision.solids@ == o.collision.solids@.update(cell as int, v)
                    &&& f.collision.ladders == o.collision.ladders && f.collision.hazards == o.collision.hazards
                    &&& status matches Some(s) && s@ == "Updated solid collision"@
                } else {
                    status is None
                },
                CanvasEdit::SetLadder(v) => if cell < o.collision.ladders@.len() {
                    &&& scene_parts_same(f, o, true, false, true, true, true, true)
                    &&& f.collision.ladders@ == o.collision.ladders@.update(cell as int, v)
                    &&& f.collision.solids == o.collision.solids && f.collision.hazards == o.collision.hazards
                    &&& status matches Some(s) && s@ == "Updated ladder collision"@
                } else {
                    status is None
                },
                CanvasEdit::SetHazard(v) => if cell < o.collision.hazards@.len() {
                    &&& scene_parts_same(f, o, true, false, true, true, true, true)
                    &&& f.collision.hazards@ == o.collision.hazards@.update(cell as int, v)
                    &&& f.collision.solids == o.collision.solids && f.collision.ladders == o.collision.ladders
                    &&& status matches Some(s) && s@ == "Updated hazard collision"@
                } else {
                    status is None
                },
                CanvasEdit::MoveSpawn(i, pos) => if i < o.spawns@.len() {
                    &&& scene_parts_same(f, o, true, true, false, true, true, true)
                    &&& f.spawns@ == o.spawns@.update(i as int, crate::project::SpawnPoint { position: pos, ..o.spawns@[i as int] })
                    &&& status matches Some(s) && s@ == spec_move_status("spawn"@, o.spawns@[i as int].id@)
                } else {
                    status is None
                },
                CanvasEdit::MoveCheckpoint(i, pos) => if i < o.checkpoints@.len() {
                    &&& scene_parts_same(f, o, true, true, true, false, true, true)
                    &&& f.checkpoints@ == o.checkpoints@.update(
                        i as int,
                        crate::project::Checkpoint { position: pos, ..o.checkpoints@[i as int] },
                    )
                    &&& status matches Some(s) && s@ == spec_move_status("checkpoint"@, o.checkpoints@[i as int].id@)
                } else {
                    status is None
                },
                CanvasEdit::MoveEntity(i, pos) => if i < o.entities@.len() {
                    &&& scene_parts_same(f, o, true, true, true, true, false, true)
                    &&& f.entities@ == o.entities@.update(
                        i as int,
                        crate::project::EntityPlacement { position: pos, ..o.entities@[i as int] },
                    )
                    &&& status matches Some(s) && s@ == spec_move_status("entity"@, o.entities@[i as int].id@)
                } else {
                    status is None
                },
                CanvasEdit::MoveTrigger(i, pos) => if i < o.triggers@.len() {
                    let t = o.triggers@[i as int];
                    &&& scene_parts_same(f, o, true, true, true, true, true, false)
                    &&& f.triggers@ == o.triggers@.update(
                        i as int,
                        crate::project::TriggerVolume { rect: crate::project::RectI16 { x: pos.x, y: pos.y, ..t.rect }, ..t },
                    )
                    &&& status matches Some(s) && s@ == spec_move_status("trigger"@, t.id@)
                } else {
                    status is None
                },
            }
        }),
{
    match edit {
        CanvasEdit::PaintTile(t) => {
            let n = scene.layers.len();
            if n == 0 {
                return None;
            }
            let k = if selected_layer < n - 1 { selected_layer } else { n - 1 };
            if cell >= scene.layers[k].tiles.len() {
                return None;
            }
            let mut layers: Vec<TileLayer> = Vec::new();
            std::mem::swap(&mut layers, &mut scene.layers);
            let ghost before = layers@;
            let mut layer = layers.remove(k);
            layer.tiles.set(cell, t);
            let status = if t == 0 {
                let mut s = String::from_str("Erased tile from '");
                s.append(layer.id.as_str());
                s.append("'");
                s
            } else {
                let mut s = String::from_str("Painted tile ");
                push_decimal(&mut s, t as u128);
                s.append(" into '");
                s.append(layer.id.as_str());
                s.append("'");
                s
            };
            layers.insert(k, layer);
            std::mem::swap(&mut layers, &mut scene.layers);
            proof {
                assert forall|j: int| 0 <= j < before.len() && j != k implies scene.layers@[j] == before[j] by {
                    if j < k {
                        assert(before.remove(k as int)[j] == before[j]);
                    } else {
                        assert(before.remove(k as int)[j - 1] == before[j]);
                    }
                }
            }
            Some(status)
        },
        CanvasEdit::SetSolid(v) => if set_flag(&mut scene.collision.solids, cell, v) {
            Some(String::from_str("Updated solid collision"))
        } else {
            None
        },
        CanvasEdit::SetLadder(v) => if set_flag(&mut scene.collision.ladders, cell, v) {
            Some(String::from_str("Updated ladder collision"))
        } else {
            None
        },
        CanvasEdit::SetHazard(v) => if set_flag(&mut scene.collision.hazards, cell, v) {
            Some(String::from_str("Updated hazard collision"))
        } else {
            None
        },
        CanvasEdit::MoveSpawn(i, pos) => {
            if i >= scene.spawns.len() {
                return None;
            }
            let mut items = Vec::new();
            std::mem::swap(&mut items, &mut scene.spawns);
            let ghost before = items@;
            let mut item = items.remove(i);
            item.position = pos;
            let status = move_status("spawn", item.id.as_str());
            items.insert(i, item);
            assert(items@ =~= before.update(i as int, crate::project::SpawnPoint { position: pos, ..before[i as int] }));
            std::mem::swap(&mut items, &mut scene.spawns);
            Some(status)
        },
        CanvasEdit::MoveCheckpoint(i, pos) => {
            if i >= scene.checkpoints.len() {
                return None;
            }
            let mut items = Vec::new();
            std::mem::swap(&mut items, &mut scene.checkpoints);
            let ghost before = items@;
            let mut item = items.remove(i);
            item.position = pos;
            let status = move_status("checkpoint", item.id.as_str());
            items.insert(i, item);
            assert(items@ =~= before.update(i as int, crate::project::Checkpoint { position: pos, ..before[i as int] }));
            std::mem::swap(&mut items, &mut scene.checkpoints);
            Some(status)
        },
        CanvasEdit::MoveEntity(i, pos) => {
            if i >= scene.entities.len() {
                return None;
            }
            let mut items = Vec::new();
            std::mem::swap(&mut items, &mut scene.entities);
            let ghost before = items@;
            let mut item = items.remove(i);
            item.position = pos;
            let status = move_status("entity", item.id.as_str());
            items.insert(i, item);
            assert(items@ =~= before.update(
                i as int,
                crate::project::EntityPlacement { position: pos, ..before[i as int] },
            ));
            std::mem::swap(&mut items, &mut scene.entities);
            Some(status)
        },
        CanvasEdit::MoveTrigger(i, pos) => {
            if i >= scene.triggers.len() {
                return None;
            }
            let mut items = Vec::new();
            std::mem::swap(&mut items, &mut scene.triggers);
            let ghost before = items@;
            let mut item = items.remove(i);
            item.rect.x = pos.x;
            item.rect.y = pos.y;
            let status = move_status("trigger", item.id.as_str());
            items.insert(i, item);
            assert(items@ =~= before.update(
                i as int,
                crate::project::TriggerVolume {
                    rect: crate::project::RectI16 { x: pos.x, y: pos.y, ..before[i as int].rect },
                    ..before[i as int]
                },
            ));
            std::mem::swap(&mut items, &mut scene.triggers);
            Some(status)
        },
    }
}

/// The status after selecting tiles.
pub open spec fn spec_selected_status(rect: TileSelectionRect) -> Seq<char> {
    "Selected "@ + decimal(crate::clipboard::span(rect.min_x, rect.max_x)) + "x"@ + decimal(
        crate::clipboard::span(rect.min_y, rect.max_y),
    ) + " tiles"@
}

/// Selects the tiles of a rectangle and the objects they hold, with the
/// status to report.
pub fn commit_selection(scene: &SceneResource, rect: TileSelectionRect) -> (r: (SceneSelection, String))
    requires
        pixels_fit(rect),
    ensures
        r.0.rect == rect,
        r.0.spawns@ == picked(Seq::new(scene.spawns@.len(), |k: int| holds_point(rect, scene.spawns@[k].position))),
        r.0.checkpoints@ == picked(
            Seq::new(scene.checkpoints@.len(), |k: int| holds_point(rect, scene.checkpoints@[k].position)),
        ),
        r.0.entities@ == picked(
            Seq::new(scene.entities@.len(), |k: int| holds_point(rect, scene.entities@[k].position)),
        ),
        r.0.triggers@ == picked(Seq::new(scene.triggers@.len(), |k: int| meets_rect(rect, scene.triggers@[k].rect))),
        r.1@ == spec_selected_status(rect),
{
    let selection = build_scene_selection(scene, rect);
    let mut s = String::from_str("Selected ");
    push_decimal(&mut s, rect.width_tiles() as u128);
    s.append("x");
    push_decimal(&mut s, rect.height_tiles() as u128);
    s.append(" tiles");
    (selection, s)
}


/// Law: keeping a selection within a project twice is keeping it within
/// the project once.
pub proof fn lemma_sync_idempotent(s: EditorSelection, bundle: Option<ProjectBundle>)
    ensures
        synced_selection(synced_selection(s, bundle), bundle) == synced_selection(s, bundle),
{
    if let Some(b) = bundle {
        let once = synced_selection(s, bundle);
        let scene_i = clamp_index(s.scene as int, b.scenes@.len() as int);
        if scene_i < b.scenes@.len() {
            let scene = b.scenes@[scene_i];
            let layer = clamp_index(s.layer as int, scene.layers@.len() as int);
            if 0 <= layer < scene.layers@.len() {
                match first_with_id(tileset_ids(b.tilesets@), scene.layers@[layer].tileset_id@) {
                    Some(t) => {
                        crate::bundle::lemma_first_with_id(tileset_ids(b.tilesets@), scene.layers@[layer].tileset_id@);
                    },
                    None => {},
                }
            }
        }
    }
}

} // verus!
