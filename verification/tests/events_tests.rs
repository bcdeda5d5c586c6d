use snesmaker::events::{
    dialogue_preview_text, event_command_label, reserved_unimplemented_commands,
    script_preview_text, truncate_preview_text, DialogueGraph, DialogueNode, EventCommand,
    EventScript,
};

fn node(id: &str, speaker: &str, text: &str) -> DialogueNode {
    DialogueNode {
        id: id.to_string(),
        speaker: speaker.to_string(),
        text: text.to_string(),
        commands: vec![],
        choices: vec![],
        next: None,
    }
}

#[test]
fn battle_commands_are_reported_as_unimplemented() {
    let script = EventScript {
        id: "s".to_string(),
        commands: vec![
            EventCommand::Wait { frames: 3 },
            EventCommand::StartBattleScene { battle_id: "b1".to_string() },
            EventCommand::SetFlag { flag: "f".to_string(), value: true },
            EventCommand::StartBattleScene { battle_id: "b2".to_string() },
        ],
    };
    assert_eq!(reserved_unimplemented_commands(&script), vec!["StartBattleScene", "StartBattleScene"]);
    let empty = EventScript { id: "e".to_string(), commands: vec![] };
    assert!(reserved_unimplemented_commands(&empty).is_empty());
}

#[test]
fn command_labels_name_the_variant() {
    assert_eq!(event_command_label(&EventCommand::FreezePlayer { frozen: true }), "FreezePlayer");
    assert_eq!(
        event_command_label(&EventCommand::LoadScene { scene_id: "a".to_string(), spawn: None }),
        "LoadScene"
    );
}

#[test]
fn script_previews_count_commands() {
    let script = EventScript {
        id: "s".to_string(),
        commands: vec![
            EventCommand::PlayCutscene { cutscene_id: "c".to_string() },
            EventCommand::Wait { frames: 1 },
        ],
    };
    assert_eq!(script_preview_text(&script), "2 command(s), starts with PlayCutscene");
    let empty = EventScript { id: "e".to_string(), commands: vec![] };
    assert_eq!(script_preview_text(&empty), "No commands");
}

#[test]
fn dialogue_previews_start_at_the_opening_node() {
    let dialogue = DialogueGraph {
        id: "d".to_string(),
        opening_node: "b".to_string(),
        nodes: vec![node("a", "", "first"), node("b", "Ann", "hello")],
    };
    assert_eq!(dialogue_preview_text(&dialogue), "Ann: hello");
    let fallback = DialogueGraph {
        id: "d".to_string(),
        opening_node: "zz".to_string(),
        nodes: vec![node("a", "  ", "first")],
    };
    assert_eq!(dialogue_preview_text(&fallback), "first");
    let empty = DialogueGraph { id: "d".to_string(), opening_node: "a".to_string(), nodes: vec![] };
    assert_eq!(dialogue_preview_text(&empty), "Empty dialogue");
}

#[test]
fn previews_are_trimmed_flattened_and_cut() {
    assert_eq!(truncate_preview_text("  one\ntwo  ", 20), "one two");
    assert_eq!(truncate_preview_text("abcdef", 3), "abc...");
    assert_eq!(truncate_preview_text("abc", 3), "abc");
    assert_eq!(truncate_preview_text("   ", 3), "Empty");
}
