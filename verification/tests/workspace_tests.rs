use snesmaker::editor::WorkspacePreset;
use snesmaker::workspace_file::{SavedDockLayout, WorkspaceFile};
use snesmaker::workspace::{default_center_slot, default_show_status_bar, DockArea, DockLayout, DockSlot, DockTab};

#[test]
fn moving_tab_rehomes_it_once() {
    let mut layout = DockLayout::default();
    layout.show_tab(DockTab::Inspector);
    layout.move_tab(DockTab::Inspector, DockArea::Left);

    assert_eq!(layout.area_for(DockTab::Inspector), Some(DockArea::Left));
    assert_eq!(layout.left.tabs.iter().filter(|tab| **tab == DockTab::Inspector).count(), 1);
}

#[test]
fn shown_tabs_open_in_their_default_area_and_become_active() {
    let mut layout = DockLayout::default();
    layout.show_tab(DockTab::Diagnostics);
    assert_eq!(layout.area_for(DockTab::Diagnostics), Some(DockTab::Diagnostics.default_area()));
    assert_eq!(layout.active_tab(DockTab::Diagnostics.default_area()), Some(DockTab::Diagnostics));
    layout.show_tab(DockTab::Diagnostics);
    assert_eq!(layout.slot(DockTab::Diagnostics.default_area()).tabs.len(), 1);
}

#[test]
fn hidden_tabs_leave_the_layout() {
    let mut layout = DockLayout::default();
    layout.show_tab(DockTab::Assets);
    layout.hide_tab(DockTab::Assets);
    assert!(!layout.contains(DockTab::Assets));
    assert!(layout.contains(DockTab::Scene));
}

#[test]
fn normalizing_drops_repeated_tabs_and_clamps_active() {
    let mut layout = DockLayout::default();
    layout.left = DockSlot { tabs: vec![DockTab::Scene, DockTab::Toolbox, DockTab::Toolbox], active: 9 };
    layout.normalize();
    assert_eq!(layout.left.tabs, vec![DockTab::Scene, DockTab::Toolbox]);
    assert_eq!(layout.left.active, 1);
    assert_eq!(layout.center.tabs, Vec::<DockTab>::new());
    let again = layout.clone();
    layout.normalize();
    assert_eq!(layout, again);
}

#[test]
fn active_tab_moves_within_its_slot() {
    let mut layout = DockLayout::default();
    layout.bottom = DockSlot::new(vec![DockTab::Assets, DockTab::Diagnostics, DockTab::Playtest], 0);
    layout.move_active_within_slot(DockArea::Bottom, 1);
    assert_eq!(layout.bottom.tabs, vec![DockTab::Diagnostics, DockTab::Assets, DockTab::Playtest]);
    assert_eq!(layout.bottom.active, 1);
    layout.move_active_within_slot(DockArea::Bottom, -5);
    assert_eq!(layout.bottom.active, 1);
    layout.move_active_within_slot(DockArea::Bottom, -1);
    assert_eq!(layout.bottom.tabs, vec![DockTab::Assets, DockTab::Diagnostics, DockTab::Playtest]);
    assert_eq!(layout.bottom.active, 0);
}

#[test]
fn labels_and_defaults() {
    assert_eq!(DockArea::Bottom.label(), "Bottom");
    assert_eq!(DockTab::BuildReport.label(), "Build Report");
    assert_eq!(DockTab::Toolbox.default_area(), DockArea::Left);
    assert!(default_show_status_bar());
    assert_eq!(default_center_slot().tabs, vec![DockTab::Scene]);
}

#[test]
fn workspace_file_normalizes_saved_layout_names() {
    let mut workspace = WorkspaceFile {
        saved_layouts: vec![
            SavedDockLayout { name: "Animation".to_string(), layout: DockLayout::default() },
            SavedDockLayout { name: "animation".to_string(), layout: DockLayout::default() },
        ],
        active_saved_layout: Some("animation".to_string()),
        ..WorkspaceFile::default()
    };

    workspace.normalize();

    assert_eq!(workspace.saved_layouts.len(), 1);
    assert_eq!(workspace.active_saved_layout.as_deref(), Some("animation"));
}

#[test]
fn saved_layouts_are_sorted_named_and_the_missing_active_one_is_forgotten() {
    let mut workspace = WorkspaceFile {
        saved_layouts: vec![
            SavedDockLayout { name: "zeta".to_string(), layout: DockLayout::default() },
            SavedDockLayout { name: "  ".to_string(), layout: DockLayout::default() },
            SavedDockLayout { name: "Beta".to_string(), layout: DockLayout::default() },
            SavedDockLayout { name: "alpha".to_string(), layout: DockLayout::default() },
        ],
        active_saved_layout: Some("gamma".to_string()),
        ..WorkspaceFile::default()
    };
    workspace.normalize();
    let names: Vec<&str> = workspace.saved_layouts.iter().map(|l| l.name.as_str()).collect();
    assert_eq!(names, vec!["Beta", "alpha", "zeta"]);
    assert_eq!(workspace.active_saved_layout, None);
}

#[test]
fn saved_layouts_are_stored_found_and_deleted_by_name() {
    let mut workspace = WorkspaceFile::default();
    workspace.current_layout.show_tab(DockTab::Diagnostics);
    let designed = workspace.current_layout.clone();

    assert_eq!(workspace.save_current_layout("   "), None);
    assert!(workspace.saved_layouts.is_empty());

    assert_eq!(workspace.save_current_layout("  Zeta "), Some("Zeta".to_string()));
    workspace.current_layout = DockLayout::default();
    assert_eq!(workspace.save_current_layout("alpha"), Some("alpha".to_string()));
    let names: Vec<&str> = workspace.saved_layouts.iter().map(|l| l.name.as_str()).collect();
    assert_eq!(names, vec!["Zeta", "alpha"]);
    assert_eq!(workspace.active_saved_layout.as_deref(), Some("alpha"));

    assert_eq!(workspace.save_current_layout("ZETA"), Some("ZETA".to_string()));
    let names: Vec<&str> = workspace.saved_layouts.iter().map(|l| l.name.as_str()).collect();
    assert_eq!(names, vec!["ZETA", "alpha"]);

    workspace.saved_layouts[0].layout = designed.clone();
    assert_eq!(workspace.load_saved_layout("zeta"), Some("ZETA".to_string()));
    assert_eq!(workspace.current_layout, designed);
    assert_eq!(workspace.active_saved_layout.as_deref(), Some("ZETA"));
    assert_eq!(workspace.load_saved_layout("missing"), None);
    assert_eq!(workspace.current_layout, designed);

    assert!(workspace.delete_saved_layout("Zeta"));
    assert_eq!(workspace.active_saved_layout, None);
    assert!(!workspace.delete_saved_layout("Zeta"));
    assert_eq!(workspace.saved_layouts.len(), 1);
    assert_eq!(workspace.saved_layouts[0].name, "alpha");
}

#[test]
fn layouts_copy_exactly() {
    let mut layout = DockLayout::default();
    layout.show_tab(DockTab::Playtest);
    assert_eq!(layout.copy(), layout);
}

#[test]
fn presets_replace_the_current_layout() {
    use_presets();
}

fn use_presets() {
    let mut workspace = WorkspaceFile::default();
    workspace.active_saved_layout = Some("mine".to_string());
    assert_eq!(workspace.apply_preset(WorkspacePreset::Custom), None);
    assert_eq!(workspace.active_saved_layout.as_deref(), Some("mine"));
    assert_eq!(workspace.apply_preset(WorkspacePreset::Debug).as_deref(), Some("Workspace: Debug"));
    assert_eq!(workspace.current_layout, WorkspacePreset::Debug.layout());
    assert_eq!(workspace.active_saved_layout, None);
}

#[test]
fn tabs_are_shown_and_hidden_on_request() {
    let mut layout = DockLayout::default();
    layout.set_tab_visible(DockTab::Assets, true);
    assert!(layout.contains(DockTab::Assets));
    layout.set_tab_visible(DockTab::Assets, false);
    assert!(!layout.contains(DockTab::Assets));
}
