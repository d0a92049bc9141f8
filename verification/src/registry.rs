//! Compile-time registries of the format's vocabulary: which events are
//! valid for which protocol modes, and which surfaces map to which default
//! target paths.

use vstd::prelude::*;

use crate::text::chars_of;
use crate::text::str_eq_chars;

verus! {

/// An entry of the event-mode validity registry: an event and the modes it
/// is valid for.
pub struct EventModeEntry {
    /// Base event name.
    pub event: String,
    /// The modes for which the event is valid.
    pub valid_modes: Vec<String>,
}

/// A surface registry entry: a surface name with its protocol and default
/// target path.
pub struct SurfaceEntry {
    /// Surface name.
    pub surface: String,
    /// Protocol the surface belongs to.
    pub protocol: String,
    /// Default wildcard dot-path the surface targets.
    pub default_target: String,
}

/// The views of a list of strings.
pub open spec fn strs_view(s: Seq<String>) -> Seq<Seq<char>> {
    Seq::new(
        s.len(),
        |i: int|
            if 0 <= i < s.len() {
                s[i]@
            } else {
                Seq::empty()
            },
    )
}

/// The modes each registry event is valid for, or nothing for an event the
/// registry does not know.
pub open spec fn event_modes_spec(event: Seq<char>) -> Option<Seq<Seq<char>>> {
    if event == "initialize"@ {
        Some(seq!["mcp_server"@, "mcp_client"@])
    } else if event == "tools/list"@ {
        Some(seq!["mcp_server"@, "mcp_client"@])
    } else if event == "tools/call"@ {
        Some(seq!["mcp_server"@, "mcp_client"@])
    } else if event == "resources/list"@ {
        Some(seq!["mcp_server"@, "mcp_client"@])
    } else if event == "resources/read"@ {
        Some(seq!["mcp_server"@, "mcp_client"@])
    } else if event == "resources/subscribe"@ {
        Some(seq!["mcp_server"@])
    } else if event == "resources/unsubscribe"@ {
        Some(seq!["mcp_server"@])
    } else if event == "prompts/list"@ {
        Some(seq!["mcp_server"@, "mcp_client"@])
    } else if event == "prompts/get"@ {
        Some(seq!["mcp_server"@, "mcp_client"@])
    } else if event == "completion/complete"@ {
        Some(seq!["mcp_server"@])
    } else if event == "sampling/createMessage"@ {
        Some(seq!["mcp_server"@, "mcp_client"@])
    } else if event == "elicitation/create"@ {
        Some(seq!["mcp_server"@, "mcp_client"@])
    } else if event == "tasks/get"@ {
        Some(seq!["mcp_server"@, "mcp_client"@, "a2a_server"@])
    } else if event == "tasks/result"@ {
        Some(seq!["mcp_server"@, "mcp_client"@])
    } else if event == "tasks/list"@ {
        Some(seq!["mcp_server"@])
    } else if event == "tasks/cancel"@ {
        Some(seq!["mcp_server"@, "a2a_server"@])
    } else if event == "roots/list"@ {
        Some(seq!["mcp_server"@, "mcp_client"@])
    } else if event == "ping"@ {
        Some(seq!["mcp_server"@, "mcp_client"@])
    } else if event == "notifications/tools/list_changed"@ {
        Some(seq!["mcp_client"@])
    } else if event == "notifications/resources/list_changed"@ {
        Some(seq!["mcp_client"@])
    } else if event == "notifications/resources/updated"@ {
        Some(seq!["mcp_client"@])
    } else if event == "notifications/prompts/list_changed"@ {
        Some(seq!["mcp_client"@])
    } else if event == "notifications/tasks/status"@ {
        Some(seq!["mcp_client"@])
    } else if event == "message/send"@ {
        Some(seq!["a2a_server"@, "a2a_client"@])
    } else if event == "message/stream"@ {
        Some(seq!["a2a_server"@, "a2a_client"@])
    } else if event == "tasks/resubscribe"@ {
        Some(seq!["a2a_server"@])
    } else if event == "tasks/pushNotification/set"@ {
        Some(seq!["a2a_server"@])
    } else if event == "tasks/pushNotification/get"@ {
        Some(seq!["a2a_server"@])
    } else if event == "agent_card/get"@ {
        Some(seq!["a2a_server"@, "a2a_client"@])
    } else if event == "task/status"@ {
        Some(seq!["a2a_client"@])
    } else if event == "task/artifact"@ {
        Some(seq!["a2a_client"@])
    } else if event == "run_started"@ {
        Some(seq!["ag_ui_client"@])
    } else if event == "run_finished"@ {
        Some(seq!["ag_ui_client"@])
    } else if event == "run_error"@ {
        Some(seq!["ag_ui_client"@])
    } else if event == "step_started"@ {
        Some(seq!["ag_ui_client"@])
    } else if event == "step_finished"@ {
        Some(seq!["ag_ui_client"@])
    } else if event == "text_message_start"@ {
        Some(seq!["ag_ui_client"@])
    } else if event == "text_message_content"@ {
        Some(seq!["ag_ui_client"@])
    } else if event == "text_message_end"@ {
        Some(seq!["ag_ui_client"@])
    } else if event == "tool_call_start"@ {
        Some(seq!["ag_ui_client"@])
    } else if event == "tool_call_end"@ {
        Some(seq!["ag_ui_client"@])
    } else if event == "state_snapshot"@ {
        Some(seq!["ag_ui_client"@])
    } else if event == "state_delta"@ {
        Some(seq!["ag_ui_client"@])
    } else if event == "messages_snapshot"@ {
        Some(seq!["ag_ui_client"@])
    } else if event == "interrupt"@ {
        Some(seq!["ag_ui_client"@])
    } else if event == "custom"@ {
        Some(seq!["ag_ui_client"@])
    } else {
        None
    }
}

/// The protocol and default target of each registry surface, or nothing for
/// an unknown surface.
pub open spec fn surface_spec(surface: Seq<char>) -> Option<(Seq<char>, Seq<char>)> {
    if surface == "tool_description"@ {
        Some(("mcp"@, "tools[*].description"@))
    } else if surface == "tool_input_schema"@ {
        Some(("mcp"@, "tools[*].inputSchema"@))
    } else if surface == "tool_name"@ {
        Some(("mcp"@, "tools[*].name"@))
    } else if surface == "tool_annotations"@ {
        Some(("mcp"@, "tools[*].annotations"@))
    } else if surface == "tool_output_schema"@ {
        Some(("mcp"@, "tools[*].outputSchema"@))
    } else if surface == "tool_response"@ {
        Some(("mcp"@, "content[*]"@))
    } else if surface == "tool_structured_response"@ {
        Some(("mcp"@, "structuredContent"@))
    } else if surface == "tool_arguments"@ {
        Some(("mcp"@, "arguments"@))
    } else if surface == "resource_content"@ {
        Some(("mcp"@, "contents[*]"@))
    } else if surface == "resource_uri"@ {
        Some(("mcp"@, "resources[*].uri"@))
    } else if surface == "resource_description"@ {
        Some(("mcp"@, "resources[*].description"@))
    } else if surface == "prompt_content"@ {
        Some(("mcp"@, "messages[*].content"@))
    } else if surface == "prompt_arguments"@ {
        Some(("mcp"@, "arguments"@))
    } else if surface == "prompt_description"@ {
        Some(("mcp"@, "prompts[*].description"@))
    } else if surface == "server_notification"@ {
        Some(("mcp"@, "params"@))
    } else if surface == "server_capability"@ {
        Some(("mcp"@, "capabilities"@))
    } else if surface == "server_info"@ {
        Some(("mcp"@, "serverInfo"@))
    } else if surface == "sampling_request"@ {
        Some(("mcp"@, "params"@))
    } else if surface == "elicitation_request"@ {
        Some(("mcp"@, "params"@))
    } else if surface == "elicitation_response"@ {
        Some(("mcp"@, "result"@))
    } else if surface == "mcp_task_status"@ {
        Some(("mcp"@, "task"@))
    } else if surface == "mcp_task_result"@ {
        Some(("mcp"@, "result"@))
    } else if surface == "roots_response"@ {
        Some(("mcp"@, "roots[*]"@))
    } else if surface == "agent_card"@ {
        Some(("a2a"@, ""@))
    } else if surface == "card_name"@ {
        Some(("a2a"@, "name"@))
    } else if surface == "card_description"@ {
        Some(("a2a"@, "description"@))
    } else if surface == "skill_description"@ {
        Some(("a2a"@, "skills[*].description"@))
    } else if surface == "skill_name"@ {
        Some(("a2a"@, "skills[*].name"@))
    } else if surface == "task_message"@ {
        Some(("a2a"@, "messages[*]"@))
    } else if surface == "task_artifact"@ {
        Some(("a2a"@, "artifacts[*]"@))
    } else if surface == "task_status"@ {
        Some(("a2a"@, "status.state"@))
    } else if surface == "message_history"@ {
        Some(("ag_ui"@, "messages[*]"@))
    } else if surface == "tool_definition"@ {
        Some(("ag_ui"@, "tools[*]"@))
    } else if surface == "tool_result"@ {
        Some(("ag_ui"@, "messages[*]"@))
    } else if surface == "agent_state"@ {
        Some(("ag_ui"@, "state"@))
    } else if surface == "forwarded_props"@ {
        Some(("ag_ui"@, "forwardedProps"@))
    } else if surface == "agent_event"@ {
        Some(("ag_ui"@, "data"@))
    } else if surface == "agent_tool_call"@ {
        Some(("ag_ui"@, "data"@))
    } else {
        None
    }
}

/// Builds a registry entry from its parts.
fn entry(event: &str, modes: Vec<String>) -> (r: EventModeEntry)
    ensures
        r.event@ == event@,
        r.valid_modes@ == modes@,
{
    EventModeEntry { event: event.to_owned(), valid_modes: modes }
}

/// Looks an event up in the event-mode validity registry by its base name.
#[verifier::rlimit(100)]
pub fn lookup_event(event: &str) -> (r: Option<EventModeEntry>)
    ensures
        match r {
            Some(e) => {
                &&& e.event@ == event@
                &&& event_modes_spec(event@) == Some(strs_view(e.valid_modes@))
            },
            None => event_modes_spec(event@) is None,
        },
{
    let cs = chars_of(event);
    if str_eq_chars("initialize", &cs) {
        let mut modes: Vec<String> = Vec::new();
        modes.push(String::from_str("mcp_server"));
        modes.push(String::from_str("mcp_client"));
        proof {
            assert(strs_view(modes@) =~= seq!["mcp_server"@, "mcp_client"@]);
        }
        return Some(entry("initialize", modes));
    }
    if str_eq_chars("tools/list", &cs) {
        let mut modes: Vec<String> = Vec::new();
        modes.push(String::from_str("mcp_server"));
        modes.push(String::from_str("mcp_client"));
        proof {
            assert(strs_view(modes@) =~= seq!["mcp_server"@, "mcp_client"@]);
        }
        return Some(entry("tools/list", modes));
    }
    if str_eq_chars("tools/call", &cs) {
        let mut modes: Vec<String> = Vec::new();
        modes.push(String::from_str("mcp_server"));
        modes.push(String::from_str("mcp_client"));
        proof {
            assert(strs_view(modes@) =~= seq!["mcp_server"@, "mcp_client"@]);
        }
        return Some(entry("tools/call", modes));
    }
    if str_eq_chars("resources/list", &cs) {
        let mut modes: Vec<String> = Vec::new();
        modes.push(String::from_str("mcp_server"));
        modes.push(String::from_str("mcp_client"));
        proof {
            assert(strs_view(modes@) =~= seq!["mcp_server"@, "mcp_client"@]);
        }
        return Some(entry("resources/list", modes));
    }
    if str_eq_chars("resources/read", &cs) {
        let mut modes: Vec<String> = Vec::new();
        modes.push(String::from_str("mcp_server"));
        modes.push(String::from_str("mcp_client"));
        proof {
            assert(strs_view(modes@) =~= seq!["mcp_server"@, "mcp_client"@]);
        }
        return Some(entry("resources/read", modes));
    }
    if str_eq_chars("resources/subscribe", &cs) {
        let mut modes: Vec<String> = Vec::new();
        modes.push(String::from_str("mcp_server"));
        proof {
            assert(strs_view(modes@) =~= seq!["mcp_server"@]);
        }
        return Some(entry("resources/subscribe", modes));
    }
    if str_eq_chars("resources/unsubscribe", &cs) {
        let mut modes: Vec<String> = Vec::new();
        modes.push(String::from_str("mcp_server"));
        proof {
            assert(strs_view(modes@) =~= seq!["mcp_server"@]);
        }
        return Some(entry("resources/unsubscribe", modes));
    }
    if str_eq_chars("prompts/list", &cs) {
        let mut modes: Vec<String> = Vec::new();
        modes.push(String::from_str("mcp_server"));
        modes.push(String::from_str("mcp_client"));
        proof {
            assert(strs_view(modes@) =~= seq!["mcp_server"@, "mcp_client"@]);
        }
        return Some(entry("prompts/list", modes));
    }
    if str_eq_chars("prompts/get", &cs) {
        let mut modes: Vec<String> = Vec::new();
        modes.push(String::from_str("mcp_server"));
        modes.push(String::from_str("mcp_client"));
        proof {
            assert(strs_view(modes@) =~= seq!["mcp_server"@, "mcp_client"@]);
        }
        return Some(entry("prompts/get", modes));
    }
    if str_eq_chars("completion/complete", &cs) {
        let mut modes: Vec<String> = Vec::new();
        modes.push(String::from_str("mcp_server"));
        proof {
            assert(strs_view(modes@) =~= seq!["mcp_server"@]);
        }
        return Some(entry("completion/complete", modes));
    }
    if str_eq_chars("sampling/createMessage", &cs) {
        let mut modes: Vec<String> = Vec::new();
        modes.push(String::from_str("mcp_server"));
        modes.push(String::from_str("mcp_client"));
        proof {
            assert(strs_view(modes@) =~= seq!["mcp_server"@, "mcp_client"@]);
        }
        return Some(entry("sampling/createMessage", modes));
    }
    if str_eq_chars("elicitation/create", &cs) {
        let mut modes: Vec<String> = Vec::new();
        modes.push(String::from_str("mcp_server"));
        modes.push(String::from_str("mcp_client"));
        proof {
            assert(strs_view(modes@) =~= seq!["mcp_server"@, "mcp_client"@]);
        }
        return Some(entry("elicitation/create", modes));
    }
    if str_eq_chars("tasks/get", &cs) {
        let mut modes: Vec<String> = Vec::new();
        modes.push(String::from_str("mcp_server"));
        modes.push(String::from_str("mcp_client"));
        modes.push(String::from_str("a2a_server"));
        proof {
            assert(strs_view(modes@) =~= seq!["mcp_server"@, "mcp_client"@, "a2a_server"@]);
        }
        return Some(entry("tasks/get", modes));
    }
    if str_eq_chars("tasks/result", &cs) {
        let mut modes: Vec<String> = Vec::new();
        modes.push(String::from_str("mcp_server"));
        modes.push(String::from_str("mcp_client"));
        proof {
            assert(strs_view(modes@) =~= seq!["mcp_server"@, "mcp_client"@]);
        }
        return Some(entry("tasks/result", modes));
    }
    if str_eq_chars("tasks/list", &cs) {
        let mut modes: Vec<String> = Vec::new();
        modes.push(String::from_str("mcp_server"));
        proof {
            assert(strs_view(modes@) =~= seq!["mcp_server"@]);
        }
        return Some(entry("tasks/list", modes));
    }
    if str_eq_chars("tasks/cancel", &cs) {
        let mut modes: Vec<String> = Vec::new();
        modes.push(String::from_str("mcp_server"));
        modes.push(String::from_str("a2a_server"));
        proof {
            assert(strs_view(modes@) =~= seq!["mcp_server"@, "a2a_server"@]);
        }
        return Some(entry("tasks/cancel", modes));
    }
    if str_eq_chars("roots/list", &cs) {
        let mut modes: Vec<String> = Vec::new();
        modes.push(String::from_str("mcp_server"));
        modes.push(String::from_str("mcp_client"));
        proof {
            assert(strs_view(modes@) =~= seq!["mcp_server"@, "mcp_client"@]);
        }
        return Some(entry("roots/list", modes));
    }
    if str_eq_chars("ping", &cs) {
        let mut modes: Vec<String> = Vec::new();
        modes.push(String::from_str("mcp_server"));
        modes.push(String::from_str("mcp_client"));
        proof {
            assert(strs_view(modes@) =~= seq!["mcp_server"@, "mcp_client"@]);
        }
        return Some(entry("ping", modes));
    }
    if str_eq_chars("notifications/tools/list_changed", &cs) {
        let mut modes: Vec<String> = Vec::new();
        modes.push(String::from_str("mcp_client"));
        proof {
            assert(strs_view(modes@) =~= seq!["mcp_client"@]);
        }
        return Some(entry("notifications/tools/list_changed", modes));
    }
    if str_eq_chars("notifications/resources/list_changed", &cs) {
        let mut modes: Vec<String> = Vec::new();
        modes.push(String::from_str("mcp_client"));
        proof {
            assert(strs_view(modes@) =~= seq!["mcp_client"@]);
        }
        return Some(entry("notifications/resources/list_changed", modes));
    }
    if str_eq_chars("notifications/resources/updated", &cs) {
        let mut modes: Vec<String> = Vec::new();
        modes.push(String::from_str("mcp_client"));
        proof {
            assert(strs_view(modes@) =~= seq!["mcp_client"@]);
        }
        return Some(entry("notifications/resources/updated", modes));
    }
    if str_eq_chars("notifications/prompts/list_changed", &cs) {
        let mut modes: Vec<String> = Vec::new();
        modes.push(String::from_str("mcp_client"));
        proof {
            assert(strs_view(modes@) =~= seq!["mcp_client"@]);
        }
        return Some(entry("notifications/prompts/list_changed", modes));
    }
    if str_eq_chars("notifications/tasks/status", &cs) {
        let mut modes: Vec<String> = Vec::new();
        modes.push(String::from_str("mcp_client"));
        proof {
            assert(strs_view(modes@) =~= seq!["mcp_client"@]);
        }
        return Some(entry("notifications/tasks/status", modes));
    }
    if str_eq_chars("message/send", &cs) {
        let mut modes: Vec<String> = Vec::new();
        modes.push(String::from_str("a2a_server"));
        modes.push(String::from_str("a2a_client"));
        proof {
            assert(strs_view(modes@) =~= seq!["a2a_server"@, "a2a_client"@]);
        }
        return Some(entry("message/send", modes));
    }
    if str_eq_chars("message/stream", &cs) {
        let mut modes: Vec<String> = Vec::new();
        modes.push(String::from_str("a2a_server"));
        modes.push(String::from_str("a2a_client"));
        proof {
            assert(strs_view(modes@) =~= seq!["a2a_server"@, "a2a_client"@]);
        }
        return Some(entry("message/stream", modes));
    }
    if str_eq_chars("tasks/resubscribe", &cs) {
        let mut modes: Vec<String> = Vec::new();
        modes.push(String::from_str("a2a_server"));
        proof {
            assert(strs_view(modes@) =~= seq!["a2a_server"@]);
        }
        return Some(entry("tasks/resubscribe", modes));
    }
    if str_eq_chars("tasks/pushNotification/set", &cs) {
        let mut modes: Vec<String> = Vec::new();
        modes.push(String::from_str("a2a_server"));
        proof {
            assert(strs_view(modes@) =~= seq!["a2a_server"@]);
        }
        return Some(entry("tasks/pushNotification/set", modes));
    }
    if str_eq_chars("tasks/pushNotification/get", &cs) {
        let mut modes: Vec<String> = Vec::new();
        modes.push(String::from_str("a2a_server"));
        proof {
            assert(strs_view(modes@) =~= seq!["a2a_server"@]);
        }
        return Some(entry("tasks/pushNotification/get", modes));
    }
    if str_eq_chars("agent_card/get", &cs) {
        let mut modes: Vec<String> = Vec::new();
        modes.push(String::from_str("a2a_server"));
        modes.push(String::from_str("a2a_client"));
        proof {
            assert(strs_view(modes@) =~= seq!["a2a_server"@, "a2a_client"@]);
        }
        return Some(entry("agent_card/get", modes));
    }
    if str_eq_chars("task/status", &cs) {
        let mut modes: Vec<String> = Vec::new();
        modes.push(String::from_str("a2a_client"));
        proof {
            assert(strs_view(modes@) =~= seq!["a2a_client"@]);
        }
        return Some(entry("task/status", modes));
    }
    if str_eq_chars("task/artifact", &cs) {
        let mut modes: Vec<String> = Vec::new();
        modes.push(String::from_str("a2a_client"));
        proof {
            assert(strs_view(modes@) =~= seq!["a2a_client"@]);
        }
        return Some(entry("task/artifact", modes));
    }
    if str_eq_chars("run_started", &cs) {
        let mut modes: Vec<String> = Vec::new();
        modes.push(String::from_str("ag_ui_client"));
        proof {
            assert(strs_view(modes@) =~= seq!["ag_ui_client"@]);
        }
        return Some(entry("run_started", modes));
    }
    if str_eq_chars("run_finished", &cs) {
        let mut modes: Vec<String> = Vec::new();
        modes.push(String::from_str("ag_ui_client"));
        proof {
            assert(strs_view(modes@) =~= seq!["ag_ui_client"@]);
        }
        return Some(entry("run_finished", modes));
    }
    if str_eq_chars("run_error", &cs) {
        let mut modes: Vec<String> = Vec::new();
        modes.push(String::from_str("ag_ui_client"));
        proof {
            assert(strs_view(modes@) =~= seq!["ag_ui_client"@]);
        }
        return Some(entry("run_error", modes));
    }
    if str_eq_chars("step_started", &cs) {
        let mut modes: Vec<String> = Vec::new();
        modes.push(String::from_str("ag_ui_client"));
        proof {
            assert(strs_view(modes@) =~= seq!["ag_ui_client"@]);
        }
        return Some(entry("step_started", modes));
    }
    if str_eq_chars("step_finished", &cs) {
        let mut modes: Vec<String> = Vec::new();
        modes.push(String::from_str("ag_ui_client"));
        proof {
            assert(strs_view(modes@) =~= seq!["ag_ui_client"@]);
        }
        return Some(entry("step_finished", modes));
    }
    if str_eq_chars("text_message_start", &cs) {
        let mut modes: Vec<String> = Vec::new();
        modes.push(String::from_str("ag_ui_client"));
        proof {
            assert(strs_view(modes@) =~= seq!["ag_ui_client"@]);
        }
        return Some(entry("text_message_start", modes));
    }
    if str_eq_chars("text_message_content", &cs) {
        let mut modes: Vec<String> = Vec::new();
        modes.push(String::from_str("ag_ui_client"));
        proof {
            assert(strs_view(modes@) =~= seq!["ag_ui_client"@]);
        }
        return Some(entry("text_message_content", modes));
    }
    if str_eq_chars("text_message_end", &cs) {
        let mut modes: Vec<String> = Vec::new();
        modes.push(String::from_str("ag_ui_client"));
        proof {
            assert(strs_view(modes@) =~= seq!["ag_ui_client"@]);
        }
        return Some(entry("text_message_end", modes));
    }
    if str_eq_chars("tool_call_start", &cs) {
        let mut modes: Vec<String> = Vec::new();
        modes.push(String::from_str("ag_ui_client"));
        proof {
            assert(strs_view(modes@) =~= seq!["ag_ui_client"@]);
        }
        return Some(entry("tool_call_start", modes));
    }
    if str_eq_chars("tool_call_end", &cs) {
        let mut modes: Vec<String> = Vec::new();
        modes.push(String::from_str("ag_ui_client"));
        proof {
            assert(strs_view(modes@) =~= seq!["ag_ui_client"@]);
        }
        return Some(entry("tool_call_end", modes));
    }
    if str_eq_chars("state_snapshot", &cs) {
        let mut modes: Vec<String> = Vec::new();
        modes.push(String::from_str("ag_ui_client"));
        proof {
            assert(strs_view(modes@) =~= seq!["ag_ui_client"@]);
        }
        return Some(entry("state_snapshot", modes));
    }
    if str_eq_chars("state_delta", &cs) {
        let mut modes: Vec<String> = Vec::new();
        modes.push(String::from_str("ag_ui_client"));
        proof {
            assert(strs_view(modes@) =~= seq!["ag_ui_client"@]);
        }
        return Some(entry("state_delta", modes));
    }
    if str_eq_chars("messages_snapshot", &cs) {
        let mut modes: Vec<String> = Vec::new();
        modes.push(String::from_str("ag_ui_client"));
        proof {
            assert(strs_view(modes@) =~= seq!["ag_ui_client"@]);
        }
        return Some(entry("messages_snapshot", modes));
    }
    if str_eq_chars("interrupt", &cs) {
        let mut modes: Vec<String> = Vec::new();
        modes.push(String::from_str("ag_ui_client"));
        proof {
            assert(strs_view(modes@) =~= seq!["ag_ui_client"@]);
        }
        return Some(entry("interrupt", modes));
    }
    if str_eq_chars("custom", &cs) {
        let mut modes: Vec<String> = Vec::new();
        modes.push(String::from_str("ag_ui_client"));
        proof {
            assert(strs_view(modes@) =~= seq!["ag_ui_client"@]);
        }
        return Some(entry("custom", modes));
    }
    None
}

/// Whether an event is valid for a mode; nothing for an event the registry
/// does not know.
pub fn is_event_valid_for_mode(event_base: &str, mode: &str) -> (r: Option<bool>)
    ensures
        match r {
            Some(b) => {
                &&& event_modes_spec(event_base@) matches Some(modes)
                &&& b == exists|i: int| 0 <= i < modes.len() && (#[trigger] modes[i]) == mode@
            },
            None => event_modes_spec(event_base@) is None,
        },
{
    match lookup_event(event_base) {
        Some(e) => {
            let mcs = chars_of(mode);
            let ghost modes = strs_view(e.valid_modes@);
            let n: usize = e.valid_modes.len();
            let mut i: usize = 0;
            let mut found = false;
            while i < n
                invariant
                    0 <= i <= n,
                    n == e.valid_modes@.len(),
                    modes == strs_view(e.valid_modes@),
                    modes.len() == n,
                    mcs@ == mode@,
                    found ==> exists|j: int| 0 <= j < n && (#[trigger] modes[j]) == mode@,
                    !found ==> forall|j: int| 0 <= j < i ==> (#[trigger] modes[j]) != mode@,
                decreases n - i,
            {
                proof {
                    assert(modes[i as int] == e.valid_modes@[i as int]@);
                }
                if str_eq_chars(e.valid_modes[i].as_str(), &mcs) {
                    found = true;
                }
                i = i + 1;
            }
            proof {
                let specm = event_modes_spec(event_base@)->Some_0;
                assert(specm == modes);
            }
            Some(found)
        },
        None => None,
    }
}

/// Looks a surface up in the surface registry by name.
#[verifier::rlimit(100)]
pub fn lookup_surface(surface: &str) -> (r: Option<SurfaceEntry>)
    ensures
        match r {
            Some(e) => {
                &&& e.surface@ == surface@
                &&& surface_spec(surface@) == Some((e.protocol@, e.default_target@))
            },
            None => surface_spec(surface@) is None,
        },
{
    let cs = chars_of(surface);
    if str_eq_chars("tool_description", &cs) {
        return Some(
            SurfaceEntry {
                surface: "tool_description".to_owned(),
                protocol: "mcp".to_owned(),
                default_target: "tools[*].description".to_owned(),
            },
        );
    }
    if str_eq_chars("tool_input_schema", &cs) {
        return Some(
            SurfaceEntry {
                surface: "tool_input_schema".to_owned(),
                protocol: "mcp".to_owned(),
                default_target: "tools[*].inputSchema".to_owned(),
            },
        );
    }
    if str_eq_chars("tool_name", &cs) {
        return Some(
            SurfaceEntry {
                surface: "tool_name".to_owned(),
                protocol: "mcp".to_owned(),
                default_target: "tools[*].name".to_owned(),
            },
        );
    }
    if str_eq_chars("tool_annotations", &cs) {
        return Some(
            SurfaceEntry {
                surface: "tool_annotations".to_owned(),
                protocol: "mcp".to_owned(),
                default_target: "tools[*].annotations".to_owned(),
            },
        );
    }
    if str_eq_chars("tool_output_schema", &cs) {
        return Some(
            SurfaceEntry {
                surface: "tool_output_schema".to_owned(),
                protocol: "mcp".to_owned(),
                default_target: "tools[*].outputSchema".to_owned(),
            },
        );
    }
    if str_eq_chars("tool_response", &cs) {
        return Some(
            SurfaceEntry {
                surface: "tool_response".to_owned(),
                protocol: "mcp".to_owned(),
                default_target: "content[*]".to_owned(),
            },
        );
    }
    if str_eq_chars("tool_structured_response", &cs) {
        return Some(
            SurfaceEntry {
                surface: "tool_structured_response".to_owned(),
                protocol: "mcp".to_owned(),
                default_target: "structuredContent".to_owned(),
            },
        );
    }
    if str_eq_chars("tool_arguments", &cs) {
        return Some(
            SurfaceEntry {
                surface: "tool_arguments".to_owned(),
                protocol: "mcp".to_owned(),
                default_target: "arguments".to_owned(),
            },
        );
    }
    if str_eq_chars("resource_content", &cs) {
        return Some(
            SurfaceEntry {
                surface: "resource_content".to_owned(),
                protocol: "mcp".to_owned(),
                default_target: "contents[*]".to_owned(),
            },
        );
    }
    if str_eq_chars("resource_uri", &cs) {
        return Some(
            SurfaceEntry {
                surface: "resource_uri".to_owned(),
                protocol: "mcp".to_owned(),
                default_target: "resources[*].uri".to_owned(),
            },
        );
    }
    if str_eq_chars("resource_description", &cs) {
        return Some(
            SurfaceEntry {
                surface: "resource_description".to_owned(),
                protocol: "mcp".to_owned(),
                default_target: "resources[*].description".to_owned(),
            },
        );
    }
    if str_eq_chars("prompt_content", &cs) {
        return Some(
            SurfaceEntry {
                surface: "prompt_content".to_owned(),
                protocol: "mcp".to_owned(),
                default_target: "messages[*].content".to_owned(),
            },
        );
    }
    if str_eq_chars("prompt_arguments", &cs) {
        return Some(
            SurfaceEntry {
                surface: "prompt_arguments".to_owned(),
                protocol: "mcp".to_owned(),
                default_target: "arguments".to_owned(),
            },
        );
    }
    if str_eq_chars("prompt_description", &cs) {
        return Some(
            SurfaceEntry {
                surface: "prompt_description".to_owned(),
                protocol: "mcp".to_owned(),
                default_target: "prompts[*].description".to_owned(),
            },
        );
    }
    if str_eq_chars("server_notification", &cs) {
        return Some(
            SurfaceEntry {
                surface: "server_notification".to_owned(),
                protocol: "mcp".to_owned(),
                default_target: "params".to_owned(),
            },
        );
    }
    if str_eq_chars("server_capability", &cs) {
        return Some(
            SurfaceEntry {
                surface: "server_capability".to_owned(),
                protocol: "mcp".to_owned(),
                default_target: "capabilities".to_owned(),
            },
        );
    }
    if str_eq_chars("server_info", &cs) {
        return Some(
            SurfaceEntry {
                surface: "server_info".to_owned(),
                protocol: "mcp".to_owned(),
                default_target: "serverInfo".to_owned(),
            },
        );
    }
    if str_eq_chars("sampling_request", &cs) {
        return Some(
            SurfaceEntry {
                surface: "sampling_request".to_owned(),
                protocol: "mcp".to_owned(),
                default_target: "params".to_owned(),
            },
        );
    }
    if str_eq_chars("elicitation_request", &cs) {
        return Some(
            SurfaceEntry {
                surface: "elicitation_request".to_owned(),
                protocol: "mcp".to_owned(),
                default_target: "params".to_owned(),
            },
        );
    }
    if str_eq_chars("elicitation_response", &cs) {
        return Some(
            SurfaceEntry {
                surface: "elicitation_response".to_owned(),
                protocol: "mcp".to_owned(),
                default_target: "result".to_owned(),
            },
        );
    }
    if str_eq_chars("mcp_task_status", &cs) {
        return Some(
            SurfaceEntry {
                surface: "mcp_task_status".to_owned(),
                protocol: "mcp".to_owned(),
                default_target: "task".to_owned(),
            },
        );
    }
    if str_eq_chars("mcp_task_result", &cs) {
        return Some(
            SurfaceEntry {
                surface: "mcp_task_result".to_owned(),
                protocol: "mcp".to_owned(),
                default_target: "result".to_owned(),
            },
        );
    }
    if str_eq_chars("roots_response", &cs) {
        return Some(
            SurfaceEntry {
                surface: "roots_response".to_owned(),
                protocol: "mcp".to_owned(),
                default_target: "roots[*]".to_owned(),
            },
        );
    }
    if str_eq_chars("agent_card", &cs) {
        return Some(
            SurfaceEntry {
                surface: "agent_card".to_owned(),
                protocol: "a2a".to_owned(),
                default_target: "".to_owned(),
            },
        );
    }
    if str_eq_chars("card_name", &cs) {
        return Some(
            SurfaceEntry {
                surface: "card_name".to_owned(),
                protocol: "a2a".to_owned(),
                default_target: "name".to_owned(),
            },
        );
    }
    if str_eq_chars("card_description", &cs) {
        return Some(
            SurfaceEntry {
                surface: "card_description".to_owned(),
                protocol: "a2a".to_owned(),
                default_target: "description".to_owned(),
            },
        );
    }
    if str_eq_chars("skill_description", &cs) {
        return Some(
            SurfaceEntry {
                surface: "skill_description".to_owned(),
                protocol: "a2a".to_owned(),
                default_target: "skills[*].description".to_owned(),
            },
        );
    }
    if str_eq_chars("skill_name", &cs) {
        return Some(
            SurfaceEntry {
                surface: "skill_name".to_owned(),
                protocol: "a2a".to_owned(),
                default_target: "skills[*].name".to_owned(),
            },
        );
    }
    if str_eq_chars("task_message", &cs) {
        return Some(
            SurfaceEntry {
                surface: "task_message".to_owned(),
                protocol: "a2a".to_owned(),
                default_target: "messages[*]".to_owned(),
            },
        );
    }
    if str_eq_chars("task_artifact", &cs) {
        return Some(
            SurfaceEntry {
                surface: "task_artifact".to_owned(),
                protocol: "a2a".to_owned(),
                default_target: "artifacts[*]".to_owned(),
            },
        );
    }
    if str_eq_chars("task_status", &cs) {
        return Some(
            SurfaceEntry {
                surface: "task_status".to_owned(),
                protocol: "a2a".to_owned(),
                default_target: "status.state".to_owned(),
            },
        );
    }
    if str_eq_chars("message_history", &cs) {
        return Some(
            SurfaceEntry {
                surface: "message_history".to_owned(),
                protocol: "ag_ui".to_owned(),
                default_target: "messages[*]".to_owned(),
            },
        );
    }
    if str_eq_chars("tool_definition", &cs) {
        return Some(
            SurfaceEntry {
                surface: "tool_definition".to_owned(),
                protocol: "ag_ui".to_owned(),
                default_target: "tools[*]".to_owned(),
            },
        );
    }
    if str_eq_chars("tool_result", &cs) {
        return Some(
            SurfaceEntry {
                surface: "tool_result".to_owned(),
                protocol: "ag_ui".to_owned(),
                default_target: "messages[*]".to_owned(),
            },
        );
    }
    if str_eq_chars("agent_state", &cs) {
        return Some(
            SurfaceEntry {
                surface: "agent_state".to_owned(),
                protocol: "ag_ui".to_owned(),
                default_target: "state".to_owned(),
            },
        );
    }
    if str_eq_chars("forwarded_props", &cs) {
        return Some(
            SurfaceEntry {
                surface: "forwarded_props".to_owned(),
                protocol: "ag_ui".to_owned(),
                default_target: "forwardedProps".to_owned(),
            },
        );
    }
    if str_eq_chars("agent_event", &cs) {
        return Some(
            SurfaceEntry {
                surface: "agent_event".to_owned(),
                protocol: "ag_ui".to_owned(),
                default_target: "data".to_owned(),
            },
        );
    }
    if str_eq_chars("agent_tool_call", &cs) {
        return Some(
            SurfaceEntry {
                surface: "agent_tool_call".to_owned(),
                protocol: "ag_ui".to_owned(),
                default_target: "data".to_owned(),
            },
        );
    }
    None
}

/// Strips the qualifier from an event name: the part before the first `:`.
pub fn strip_event_qualifier(event: &str) -> (r: String)
    ensures
        r@ == crate::trigger::event_base(event@),
{
    let (base, _) = crate::trigger::parse_event_qualifier(event);
    base
}

/// The protocol component of a mode string: the mode with a `_server` or
/// `_client` suffix removed.
pub fn extract_protocol(mode: &str) -> (r: String)
    ensures
        ({
            let m = mode@;
            let server = "_server"@;
            let client = "_client"@;
            if m.len() >= server.len() && m.skip(m.len() - server.len()) == server {
                r@ == m.take(m.len() - server.len())
            } else if m.len() >= client.len() && m.skip(m.len() - client.len()) == client {
                r@ == m.take(m.len() - client.len())
            } else {
                r@ == m
            }
        }),
{
    let cs = chars_of(mode);
    let n: usize = cs.len();
    let server = chars_of("_server");
    let client = chars_of("_client");
    proof {
        reveal_strlit("_server");
        reveal_strlit("_client");
    }
    if crate::text::chars_end_with(&cs, &server) {
        let kept = crate::text::slice_chars(&cs, 0, n - 7);
        proof {
            assert(cs@.subrange(0, n - 7) =~= mode@.take(mode@.len() - 7));
            assert(cs@.subrange(n - 7, n as int) =~= mode@.skip(mode@.len() - 7));
        }
        crate::text::chars_to_string(&kept)
    } else if crate::text::chars_end_with(&cs, &client) {
        let kept = crate::text::slice_chars(&cs, 0, n - 7);
        proof {
            assert(cs@.subrange(0, n - 7) =~= mode@.take(mode@.len() - 7));
            assert(cs@.subrange(n - 7, n as int) =~= mode@.skip(mode@.len() - 7));
        }
        crate::text::chars_to_string(&kept)
    } else {
        mode.to_owned()
    }
}

} // verus!
