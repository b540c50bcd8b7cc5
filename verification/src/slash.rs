//! Text of the `/help` and `/keys` commands.

use vstd::prelude::*;
use crate::keys::{binding_or_empty, hint_text, KeyMap};
use crate::text::{spec_to_lowercase, str_eq, to_lowercase, trim, trim_str};

verus! {

/// The `/help` text: the command list, then the key hint line.
pub open spec fn help_command_text(m: Map<Seq<char>, Seq<char>>) -> Seq<char> {
    "Commands:\n/help /keys /settings /clear /context [on|off] /commands /tree\n/skills  /skill <name>  /prompt|/p <name> [args]  /reload\n/mode plan|ask|agent  /model [provider/model]  /provider|/login [name]\n/goal [condition|clear|pause|resume]  /theme [dark|light|forest]\n/handoff  /route <seat>  /seat [\u{2026}]  /beads [ready]  /laurel <text>\n/worker [seat]  /marshal  /city  /fleet [panel|status|up|down]\n/detach  /mail [send|ack]  /wish \u{2026}  /moot \u{2026}  /brain remember|falsify <\u{2026}>\n/compact  /new  /fork [@N] [label]  /timeline  /sessions\n/export [md|json|html]  /image [path]  /lsp [start|stop|status]  /skill-pack export|import\n/revert  /trust list|reset  /rename <title>  /history [query|n]\n\nKeys: "@ + hint_text(m) + "\nCtrl+P cycle model \u{b7} Tab-complete /skill|/prompt|/model|/theme|/mode|/provider \u{b7} @ file \u{b7} # dir"@
}

/// The `/help` text for a key map.
pub fn help_text(keys: &KeyMap) -> (r: String)
    ensures
        r@ == help_command_text(keys@),
{
    let mut s = "Commands:\n/help /keys /settings /clear /context [on|off] /commands /tree\n/skills  /skill <name>  /prompt|/p <name> [args]  /reload\n/mode plan|ask|agent  /model [provider/model]  /provider|/login [name]\n/goal [condition|clear|pause|resume]  /theme [dark|light|forest]\n/handoff  /route <seat>  /seat [\u{2026}]  /beads [ready]  /laurel <text>\n/worker [seat]  /marshal  /city  /fleet [panel|status|up|down]\n/detach  /mail [send|ack]  /wish \u{2026}  /moot \u{2026}  /brain remember|falsify <\u{2026}>\n/compact  /new  /fork [@N] [label]  /timeline  /sessions\n/export [md|json|html]  /image [path]  /lsp [start|stop|status]  /skill-pack export|import\n/revert  /trust list|reset  /rename <title>  /history [query|n]\n\nKeys: ".to_string();
    let hint = keys.hint_line();
    s.append(hint.as_str());
    s.append("\nCtrl+P cycle model \u{b7} Tab-complete /skill|/prompt|/model|/theme|/mode|/provider \u{b7} @ file \u{b7} # dir");
    s
}

/// The `/keys` cheat sheet, with the bound keys filled in.
pub open spec fn keys_command_text(m: Map<Seq<char>, Seq<char>>) -> Seq<char> {
    "Keymap\n"@
        + binding_or_empty(m, "insert"@)
        + "          insert mode\nEsc        normal / abort when waiting\nEnter      send (insert) / steer (waiting)\nUp/Down    history (insert) / scroll (normal)\n"@
        + binding_or_empty(m, "toggle_thinking"@)
        + "          toggle last thinking block\n"@
        + binding_or_empty(m, "expand_tool"@)
        + "          toggle last tool result block\n"@
        + binding_or_empty(m, "toggle_tree"@)
        + "          toggle the live call-tree side panel\n"@
        + binding_or_empty(m, "jump_bottom"@)
        + "          jump to bottom\n@          file picker\n#          directory picker (attach dir summary)\nTab        complete /skill /prompt /model /theme /mode /provider\n^P         cycle provider/model (ready providers)\n"@
        + binding_or_empty(m, "perm_once"@)
        + "/"@
        + binding_or_empty(m, "perm_deny"@)
        + "/"@
        + binding_or_empty(m, "perm_always"@)
        + "/"@
        + binding_or_empty(m, "perm_path"@)
        + "  once / deny / trust project / allow path\n^C         quit\n\nRemap single-key actions in ~/.rs-agent/config.toml under [keybindings].\n/model = model picker \u{b7} /provider|/login = connect provider (paste key)."@
}

/// The `/keys` cheat sheet for a key map.
pub fn keys_text(keys: &KeyMap) -> (r: String)
    ensures
        r@ == keys_command_text(keys@),
{
    let mut s = String::new();
    s.append("Keymap\n");
    s.append(keys.binding("insert"));
    s.append("          insert mode\nEsc        normal / abort when waiting\nEnter      send (insert) / steer (waiting)\nUp/Down    history (insert) / scroll (normal)\n");
    s.append(keys.binding("toggle_thinking"));
    s.append("          toggle last thinking block\n");
    s.append(keys.binding("expand_tool"));
    s.append("          toggle last tool result block\n");
    s.append(keys.binding("toggle_tree"));
    s.append("          toggle the live call-tree side panel\n");
    s.append(keys.binding("jump_bottom"));
    s.append("          jump to bottom\n@          file picker\n#          directory picker (attach dir summary)\nTab        complete /skill /prompt /model /theme /mode /provider\n^P         cycle provider/model (ready providers)\n");
    s.append(keys.binding("perm_once"));
    s.append("/");
    s.append(keys.binding("perm_deny"));
    s.append("/");
    s.append(keys.binding("perm_always"));
    s.append("/");
    s.append(keys.binding("perm_path"));
    s.append("  once / deny / trust project / allow path\n^C         quit\n\nRemap single-key actions in ~/.rs-agent/config.toml under [keybindings].\n/model = model picker \u{b7} /provider|/login = connect provider (paste key).");
    s
}

/// The format `/export` writes: markdown when no argument is given;
/// otherwise the (trimmed, lowercased) argument names md / markdown, json,
/// or html / htm; anything else is refused with a hint.
pub open spec fn export_format_of(arg: Seq<char>) -> Result<Seq<char>, Seq<char>> {
    if arg.len() == 0 {
        Ok("md"@)
    } else {
        let a = spec_to_lowercase(trim(arg));
        if a == "md"@ || a == "markdown"@ {
            Ok("md"@)
        } else if a == "json"@ {
            Ok("json"@)
        } else if a == "html"@ || a == "htm"@ {
            Ok("html"@)
        } else {
            Err("Unknown export format `"@ + a + "`. Use /export [md|json|html]"@)
        }
    }
}

/// The format `/export <arg>` writes, or the message refusing it.
pub fn export_format(arg: &str) -> (r: Result<&'static str, String>)
    ensures
        (match r {
            Ok(f) => Ok(f@),
            Err(e) => Err(e@),
        }) == export_format_of(arg@),
{
    if arg.is_empty() {
        return Ok("md");
    }
    let t = trim_str(arg);
    let a = to_lowercase(t.as_str());
    if str_eq(a.as_str(), "md") || str_eq(a.as_str(), "markdown") {
        Ok("md")
    } else if str_eq(a.as_str(), "json") {
        Ok("json")
    } else if str_eq(a.as_str(), "html") || str_eq(a.as_str(), "htm") {
        Ok("html")
    } else {
        let mut m = "Unknown export format `".to_string();
        m.append(a.as_str());
        m.append("`. Use /export [md|json|html]");
        Err(m)
    }
}

/// What `/context <arg>` does to project-context inclusion: `on`, `off` or
/// `toggle` (any case) set it; anything else only reports it (`None`).
pub open spec fn context_setting(arg: Seq<char>, current: bool) -> Option<bool> {
    let a = spec_to_lowercase(arg);
    if a == "on"@ {
        Some(true)
    } else if a == "off"@ {
        Some(false)
    } else if a == "toggle"@ {
        Some(!current)
    } else {
        None
    }
}

/// The new context-inclusion setting for `/context <arg>`, if it sets one.
pub fn context_arg(arg: &str, current: bool) -> (r: Option<bool>)
    ensures
        r == context_setting(arg@, current),
{
    let a = to_lowercase(arg);
    if str_eq(a.as_str(), "on") {
        Some(true)
    } else if str_eq(a.as_str(), "off") {
        Some(false)
    } else if str_eq(a.as_str(), "toggle") {
        Some(!current)
    } else {
        None
    }
}

} // verus!
