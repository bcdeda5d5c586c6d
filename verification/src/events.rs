//! Dialogue graphs and event scripts, and the short previews that the
//! editor shows of them.
use vstd::prelude::*;
use vstd::string::StringExecFns;
use crate::text::{decimal, push_char, push_decimal, str_equal};

verus! {

/// A branching conversation.
#[derive(Debug, Clone, PartialEq, Eq)]
pub struct DialogueGraph {
    pub id: String,
    pub opening_node: String,
    pub nodes: Vec<DialogueNode>,
}

/// One line of a conversation, with the commands it runs and the choices
/// it offers.
#[derive(Debug, Clone, PartialEq, Eq)]
pub struct DialogueNode {
    pub id: String,
    pub speaker: String,
    pub text: String,
    pub commands: Vec<EventCommand>,
    pub choices: Vec<DialogueChoice>,
    pub next: Option<String>,
}

/// A choice offered by a dialogue node.
#[derive(Debug, Clone, PartialEq, Eq)]
pub struct DialogueChoice {
    pub text: String,
    pub next: String,
    pub condition_flag: Option<String>,
}

/// A named list of event commands.
#[derive(Debug, Clone, PartialEq, Eq)]
pub struct EventScript {
    pub id: String,
    pub commands: Vec<EventCommand>,
}

/// What starts an event.
#[derive(Debug, Clone, Copy, PartialEq, Eq)]
pub enum TriggerKind {
    Touch,
    Interact,
    EnterScene,
    DefeatAllEnemies,
}

/// One step of an event script.
#[derive(Debug, Clone, PartialEq, Eq)]
pub enum EventCommand {
    ShowDialogue { dialogue_id: String, node_id: Option<String> },
    SetFlag { flag: String, value: bool },
    Wait { frames: u16 },
    MoveCamera { target_x: i16, target_y: i16, frames: u16 },
    FreezePlayer { frozen: bool },
    SpawnEntity { archetype: String, x: i16, y: i16 },
    LoadScene { scene_id: String, spawn: Option<String> },
    StartBattleScene { battle_id: String },
    PlayCutscene { cutscene_id: String },
    EmitCheckpoint { checkpoint_id: String },
}

/// The name of a command's kind.
pub open spec fn spec_command_label(command: EventCommand) -> Seq<char> {
    match command {
        EventCommand::ShowDialogue { .. } => "ShowDialogue"@,
        EventCommand::SetFlag { .. } => "SetFlag"@,
        EventCommand::Wait { .. } => "Wait"@,
        EventCommand::MoveCamera { .. } => "MoveCamera"@,
        EventCommand::FreezePlayer { .. } => "FreezePlayer"@,
        EventCommand::SpawnEntity { .. } => "SpawnEntity"@,
        EventCommand::LoadScene { .. } => "LoadScene"@,
        EventCommand::StartBattleScene { .. } => "StartBattleScene"@,
        EventCommand::PlayCutscene { .. } => "PlayCutscene"@,
        EventCommand::EmitCheckpoint { .. } => "EmitCheckpoint"@,
    }
}

/// The name of a command's kind.
pub fn event_command_label(command: &EventCommand) -> (s: &'static str)
    ensures
        s@ == spec_command_label(*command),
{
    match command {
        EventCommand::ShowDialogue { .. } => "ShowDialogue",
        EventCommand::SetFlag { .. } => "SetFlag",
        EventCommand::Wait { .. } => "Wait",
        EventCommand::MoveCamera { .. } => "MoveCamera",
        EventCommand::FreezePlayer { .. } => "FreezePlayer",
        EventCommand::SpawnEntity { .. } => "SpawnEntity",
        EventCommand::LoadScene { .. } => "LoadScene",
        EventCommand::StartBattleScene { .. } => "StartBattleScene",
        EventCommand::PlayCutscene { .. } => "PlayCutscene",
        EventCommand::EmitCheckpoint { .. } => "EmitCheckpoint",
    }
}

/// Number of battle commands among the first `n` commands.
pub open spec fn battle_count(commands: Seq<EventCommand>, n: int) -> nat
    decreases n,
{
    if n <= 0 {
        0
    } else {
        battle_count(commands, n - 1) + if commands[n - 1] is StartBattleScene {
            1nat
        } else {
            0nat
        }
    }
}

/// Law: the commands reported as not implemented are exactly the script's
/// battle commands: as many entries as `StartBattleScene` commands among
/// the first `n`, every other kind of command adding none.
pub proof fn lemma_battle_count_is_battle_commands(commands: Seq<EventCommand>, n: int)
    requires
        0 <= n <= commands.len(),
    ensures
        battle_count(commands, n) == commands.take(n).filter(|c: EventCommand| c is StartBattleScene).len(),
        (forall|i: int| 0 <= i < n ==> !(#[trigger] commands[i] is StartBattleScene)) ==> battle_count(commands, n) == 0,
    decreases n,
{
    reveal(Seq::filter);
    if n > 0 {
        lemma_battle_count_is_battle_commands(commands, n - 1);
        assert(commands.take(n).drop_last() =~= commands.take(n - 1));
        assert(commands.take(n).last() == commands[n - 1]);
    }
}

/// The commands of a script that the runtime does not implement yet: one
/// `"StartBattleScene"` for each battle command.
pub fn reserved_unimplemented_commands(script: &EventScript) -> (r: Vec<&'static str>)
    ensures
        r@.len() == battle_count(script.commands@, script.commands@.len() as int),
        forall|i: int| 0 <= i < r@.len() ==> (#[trigger] r@[i])@ == "StartBattleScene"@,
{
    let mut r: Vec<&'static str> = Vec::new();
    let mut i: usize = 0;
    while i < script.commands.len()
        invariant
            i <= script.commands@.len(),
            r@.len() == battle_count(script.commands@, i as int),
            forall|k: int| 0 <= k < r@.len() ==> (#[trigger] r@[k])@ == "StartBattleScene"@,
        decreases script.commands.len() - i,
    {
        match &script.commands[i] {
            EventCommand::StartBattleScene { .. } => {
                r.push("StartBattleScene");
            },
            _ => {},
        }
        i = i + 1;
    }
    r
}

/// A character with the Unicode `White_Space` property, which std's
/// `char::is_whitespace` tests.
pub open spec fn spec_is_whitespace(c: char) -> bool {
    let u = c as u32;
    ||| 0x09 <= u <= 0x0D
    ||| u == 0x20
    ||| u == 0x85
    ||| u == 0xA0
    ||| u == 0x1680
    ||| 0x2000 <= u <= 0x200A
    ||| u == 0x2028
    ||| u == 0x2029
    ||| u == 0x202F
    ||| u == 0x205F
    ||| u == 0x3000
}

/// Whether a character is white space.
pub fn is_whitespace(c: char) -> (r: bool)
    ensures
        r == spec_is_whitespace(c),
{
    let u = c as u32;
    (0x09 <= u && u <= 0x0D) || u == 0x20 || u == 0x85 || u == 0xA0 || u == 0x1680 || (0x2000
        <= u && u <= 0x200A) || u == 0x2028 || u == 0x2029 || u == 0x202F || u == 0x205F || u
        == 0x3000
}

/// Every character is white space.
pub open spec fn all_whitespace(s: Seq<char>) -> bool {
    forall|i: int| 0 <= i < s.len() ==> spec_is_whitespace(#[trigger] s[i])
}

/// Whether every character is white space.
pub fn is_blank(s: &str) -> (r: bool)
    ensures
        r == all_whitespace(s@),
{
    let n = s.unicode_len();
    let mut i: usize = 0;
    while i < n
        invariant
            n == s@.len(),
            i <= n,
            forall|k: int| 0 <= k < i ==> spec_is_whitespace(#[trigger] s@[k]),
        decreases n - i,
    {
        if !is_whitespace(s.get_char(i)) {
            return false;
        }
        i = i + 1;
    }
    true
}

/// `i` is the first node of the dialogue whose id is the opening node.
pub open spec fn is_opening_index(d: DialogueGraph, i: int) -> bool {
    &&& 0 <= i < d.nodes@.len()
    &&& d.nodes@[i].id@ == d.opening_node@
    &&& forall|j: int| 0 <= j < i ==> (#[trigger] d.nodes@[j]).id@ != d.opening_node@
}

/// The line of a node: `speaker: text`, or the text alone without a
/// speaker.
pub open spec fn node_line(node: DialogueNode) -> Seq<char> {
    if all_whitespace(node.speaker@) {
        node.text@
    } else {
        node.speaker@ + seq![':', ' '] + node.text@
    }
}

/// The preview of a dialogue: the line of its opening node, or of its first
/// node when no node has the opening id.
pub open spec fn dialogue_preview_is(d: DialogueGraph, text: Seq<char>) -> bool {
    if exists|i: int| is_opening_index(d, i) {
        exists|i: int| is_opening_index(d, i) && text == node_line(#[trigger] d.nodes@[i])
    } else if d.nodes@.len() > 0 {
        text == node_line(d.nodes@[0])
    } else {
        text == "Empty dialogue"@
    }
}

/// The line of a node.
fn node_line_text(node: &DialogueNode) -> (s: String)
    ensures
        s@ == node_line(*node),
{
    if is_blank(node.speaker.as_str()) {
        node.text.clone()
    } else {
        let mut s = node.speaker.clone();
        push_char(&mut s, ':');
        push_char(&mut s, ' ');
        s.append(node.text.as_str());
        s
    }
}

/// A one-line preview of a dialogue.
pub fn dialogue_preview_text(dialogue: &DialogueGraph) -> (s: String)
    ensures
        dialogue_preview_is(*dialogue, s@),
{
    let n = dialogue.nodes.len();
    let mut i: usize = 0;
    while i < n
        invariant
            n == dialogue.nodes@.len(),
            i <= n,
            forall|j: int| 0 <= j < i ==> (#[trigger] dialogue.nodes@[j]).id@ != dialogue.opening_node@,
        decreases n - i,
    {
        if str_equal(dialogue.nodes[i].id.as_str(), dialogue.opening_node.as_str()) {
            assert(is_opening_index(*dialogue, i as int));
            return node_line_text(&dialogue.nodes[i]);
        }
        i = i + 1;
    }
    assert(!exists|i: int| is_opening_index(*dialogue, i));
    if n > 0 {
        node_line_text(&dialogue.nodes[0])
    } else {
        String::from_str("Empty dialogue")
    }
}

/// The preview of a script: how many commands it has and which comes
/// first.
pub open spec fn spec_script_preview(script: EventScript) -> Seq<char> {
    if script.commands@.len() == 0 {
        "No commands"@
    } else {
        decimal(script.commands@.len()) + " command(s), starts with "@ + spec_command_label(
            script.commands@[0],
        )
    }
}

/// A one-line preview of an event script.
pub fn script_preview_text(script: &EventScript) -> (s: String)
    ensures
        s@ == spec_script_preview(*script),
{
    if script.commands.len() == 0 {
        return String::from_str("No commands");
    }
    let mut s = String::new();
    push_decimal(&mut s, script.commands.len() as u128);
    s.append(" command(s), starts with ");
    s.append(event_command_label(&script.commands[0]));
    s
}

/// A string without its leading and trailing white space.
pub open spec fn spec_trim(s: Seq<char>) -> Seq<char>
    decreases s.len(),
{
    if s.len() == 0 {
        s
    } else if spec_is_whitespace(s[0]) {
        spec_trim(s.drop_first())
    } else if spec_is_whitespace(s.last()) {
        spec_trim(s.drop_last())
    } else {
        s
    }
}

/// A string with every newline turned into a space.
pub open spec fn newlines_to_spaces(s: Seq<char>) -> Seq<char> {
    s.map_values(|c: char| if c == '\n' { ' ' } else { c })
}

/// The preview of a text: trimmed, on one line, cut to `max_chars`
/// characters and marked with `...` when cut; `Empty` when nothing is left.
pub open spec fn spec_truncated_preview(value: Seq<char>, max_chars: int) -> Seq<char> {
    let line = newlines_to_spaces(spec_trim(value));
    if line.len() > max_chars {
        line.take(max_chars) + "..."@
    } else if line.len() == 0 {
        "Empty"@
    } else {
        line
    }
}

/// Bounds of the text without its leading and trailing white space.
fn trim_bounds(s: &str) -> (r: (usize, usize))
    ensures
        r.0 <= r.1 <= s@.len(),
        s@.subrange(r.0 as int, r.1 as int) == spec_trim(s@),
{
    let n = s.unicode_len();
    let mut start: usize = 0;
    assert(s@.subrange(0, n as int) =~= s@);
    while start < n && is_whitespace(s.get_char(start))
        invariant
            n == s@.len(),
            start <= n,
            spec_trim(s@.subrange(start as int, n as int)) == spec_trim(s@),
        decreases n - start,
    {
        proof {
            assert(s@.subrange(start as int, n as int).drop_first() =~= s@.subrange(start + 1, n as int));
        }
        start = start + 1;
    }
    let mut end: usize = n;
    while end > start && is_whitespace(s.get_char(end - 1))
        invariant
            n == s@.len(),
            start <= end <= n,
            start < n ==> !spec_is_whitespace(s@[start as int]),
            spec_trim(s@.subrange(start as int, end as int)) == spec_trim(s@),
        decreases end - start,
    {
        proof {
            let sub = s@.subrange(start as int, end as int);
            assert(!spec_is_whitespace(sub[0]));
            assert(sub.drop_last() =~= s@.subrange(start as int, end - 1));
        }
        end = end - 1;
    }
    proof {
        let sub = s@.subrange(start as int, end as int);
        if sub.len() > 0 {
            assert(!spec_is_whitespace(sub[0]));
            assert(!spec_is_whitespace(sub.last()));
        }
    }
    (start, end)
}

/// A text without its leading and trailing white space.
pub fn trimmed(value: &str) -> (s: String)
    ensures
        s@ == spec_trim(value@),
{
    let (start, end) = trim_bounds(value);
    let mut s = String::new();
    let mut i: usize = start;
    while i < end
        invariant
            start <= i <= end <= value@.len(),
            s@ == value@.subrange(start as int, i as int),
        decreases end - i,
    {
        push_char(&mut s, value.get_char(i));
        assert(s@ =~= value@.subrange(start as int, i + 1));
        i = i + 1;
    }
    s
}

/// A short one-line preview of a text.
pub fn truncate_preview_text(value: &str, max_chars: usize) -> (s: String)
    ensures
        s@ == spec_truncated_preview(value@, max_chars as int),
{
    let (start, end) = trim_bounds(value);
    let ghost line = newlines_to_spaces(spec_trim(value@));
    let len = end - start;
    let take = if len < max_chars { len } else { max_chars };
    let mut s = String::new();
    let mut i: usize = 0;
    while i < take
        invariant
            start <= end <= value@.len(),
            len == end - start,
            take <= len,
            i <= take,
            value@.subrange(start as int, end as int) == spec_trim(value@),
            line == newlines_to_spaces(spec_trim(value@)),
            s@ == line.take(i as int),
        decreases take - i,
    {
        let c = value.get_char(start + i);
        let c2 = if c == '\n' { ' ' } else { c };
        push_char(&mut s, c2);
        proof {
            assert(line[i as int] == c2);
            assert(s@ =~= line.take(i + 1));
        }
        i = i + 1;
    }
    if len > max_chars {
        s.append("...");
        s
    } else if len == 0 {
        String::from_str("Empty")
    } else {
        proof {
            assert(line.take(take as int) =~= line);
        }
        s
    }
}

} // verus!
