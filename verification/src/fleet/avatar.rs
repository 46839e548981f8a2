//! The agent avatar's rules: which configurations are accepted, how
//! placeholders and secret references are read, how each runtime is
//! launched, the handoff context handed to a new session, and the restart
//! policy of the supervisor.

use vstd::prelude::*;
use crate::fleet::observer::pow2;
use crate::text::{join, join_spec, replace_spec, replace_str, starts_with_str, str_eq};

verus! {

/// Why a configuration is refused, checked in this order: no agent id, no
/// primary model, no runtime type, no MCP server.
pub open spec fn config_error(agent_id: Seq<char>, primary: Seq<char>, runtime_type: Seq<char>, servers: nat) -> Option<
    Seq<char>,
> {
    if agent_id.len() == 0 {
        Some("identity.agent_id is required"@)
    } else if primary.len() == 0 {
        Some("model.primary is required"@)
    } else if runtime_type.len() == 0 {
        Some("runtime.type is required"@)
    } else if servers == 0 {
        Some("At least one MCP server is required"@)
    } else {
        None
    }
}

/// Checks the required fields of a configuration (see `config_error`).
pub fn validate_config(agent_id: &str, primary: &str, runtime_type: &str, servers: usize) -> (r: Result<(), String>)
    ensures
        match r {
            Ok(()) => config_error(agent_id@, primary@, runtime_type@, servers as nat) is None,
            Err(e) => config_error(agent_id@, primary@, runtime_type@, servers as nat) == Some(e@),
        },
{
    if agent_id.is_empty() {
        Err(String::from_str("identity.agent_id is required"))
    } else if primary.is_empty() {
        Err(String::from_str("model.primary is required"))
    } else if runtime_type.is_empty() {
        Err(String::from_str("runtime.type is required"))
    } else if servers == 0 {
        Err(String::from_str("At least one MCP server is required"))
    } else {
        Ok(())
    }
}

/// Whether a secret reference points into the password manager (`op://`);
/// any other value is the secret itself.
pub fn is_op_ref(reference: &str) -> (b: bool)
    ensures
        b == (reference@.len() >= 5 && reference@.take(5) == "op://"@),
{
    proof {
        reveal_strlit("op://");
    }
    starts_with_str(reference, "op://")
}

/// `value` with the configuration's placeholders filled in, in this order:
/// agent id, primary model, primary provider, runtime type.
pub open spec fn placeholders_filled(
    value: Seq<char>,
    agent_id: Seq<char>,
    primary: Seq<char>,
    provider: Seq<char>,
    runtime_type: Seq<char>,
) -> Seq<char> {
    replace_spec(
        replace_spec(
            replace_spec(replace_spec(value, "{identity.agent_id}"@, agent_id), "{model.primary}"@, primary),
            "{model.primary_provider}"@,
            provider,
        ),
        "{runtime.type}"@,
        runtime_type,
    )
}

/// Fills in the placeholders of a runtime environment value (see
/// `placeholders_filled`).
pub fn resolve_placeholder(value: &str, agent_id: &str, primary: &str, provider: &str, runtime_type: &str) -> (r: String)
    ensures
        r@ == placeholders_filled(value@, agent_id@, primary@, provider@, runtime_type@),
{
    proof {
        reveal_strlit("{identity.agent_id}");
        reveal_strlit("{model.primary}");
        reveal_strlit("{model.primary_provider}");
        reveal_strlit("{runtime.type}");
    }
    let a = replace_str(value, "{identity.agent_id}", agent_id);
    let b = replace_str(a.as_str(), "{model.primary}", primary);
    let c = replace_str(b.as_str(), "{model.primary_provider}", provider);
    replace_str(c.as_str(), "{runtime.type}", runtime_type)
}

/// The base URL of the messaging server: the URL of the first MCP server
/// named `ming-qiao` without `/mcp`, or the local default.
pub open spec fn messaging_base(servers: Seq<(String, String)>) -> Seq<char>
    decreases servers.len(),
{
    if servers.len() == 0 {
        "http://localhost:7777"@
    } else if servers[0].0@ == "ming-qiao"@ {
        replace_spec(servers[0].1@, "/mcp"@, Seq::empty())
    } else {
        messaging_base(servers.drop_first())
    }
}

/// The base URL of the messaging server, from the MCP servers (name, URL).
pub fn messaging_base_url(servers: &Vec<(String, String)>) -> (r: String)
    ensures
        r@ == messaging_base(servers@),
{
    proof {
        reveal_strlit("/mcp");
    }
    assert(servers@.skip(0) =~= servers@);
    let mut i: usize = 0;
    while i < servers.len()
        invariant
            i <= servers@.len(),
            messaging_base(servers@.skip(i as int)) == messaging_base(servers@),
        decreases servers@.len() - i,
    {
        assert(servers@.skip(i as int)[0] == servers@[i as int]);
        assert(servers@.skip(i as int).drop_first() =~= servers@.skip(i + 1));
        if str_eq(servers[i].0.as_str(), "ming-qiao") {
            proof {
                reveal_strlit("/mcp");
                reveal_strlit("");
            }
            assert(""@ =~= Seq::<char>::empty());
            let r = replace_str(servers[i].1.as_str(), "/mcp", "");
            assert(r@ == messaging_base(servers@.skip(i as int)));
            return r;
        }
        i = i + 1;
    }
    assert(servers@.skip(i as int) =~= Seq::<(String, String)>::empty());
    String::from_str("http://localhost:7777")
}

/// How a runtime is told where its MCP configuration is.
#[derive(Debug, Clone, Copy)]
pub enum ConfigHandoff {
    /// In this environment variable.
    Env(&'static str),
    /// With the `--mcp-config` flag.
    Flag,
}

/// The binary of a runtime and how it finds its MCP configuration.
pub open spec fn launch_of(runtime_type: Seq<char>) -> Option<(Seq<char>, Option<Seq<char>>)> {
    if runtime_type == "opencode"@ {
        Some(("/opt/homebrew/bin/opencode"@, Some("OPENCODE_MCP_CONFIG"@)))
    } else if runtime_type == "gemini"@ {
        Some(("/opt/homebrew/bin/gemini"@, None))
    } else if runtime_type == "kimi"@ {
        Some(("/opt/homebrew/bin/kimi"@, Some("KIMI_MCP_CONFIG"@)))
    } else {
        None
    }
}

/// The binary of a runtime and how it finds its MCP configuration (see
/// `launch_of`); `None` for an unknown runtime.
pub fn runtime_launch(runtime_type: &str) -> (r: Option<(&'static str, ConfigHandoff)>)
    ensures
        match r {
            Some((bin, how)) => launch_of(runtime_type@) matches Some((b, env)) && bin@ == b && match how {
                ConfigHandoff::Env(v) => env == Some(v@),
                ConfigHandoff::Flag => env is None,
            },
            None => launch_of(runtime_type@) is None,
        },
{
    if str_eq(runtime_type, "opencode") {
        Some(("/opt/homebrew/bin/opencode", ConfigHandoff::Env("OPENCODE_MCP_CONFIG")))
    } else if str_eq(runtime_type, "gemini") {
        Some(("/opt/homebrew/bin/gemini", ConfigHandoff::Flag))
    } else if str_eq(runtime_type, "kimi") {
        Some(("/opt/homebrew/bin/kimi", ConfigHandoff::Env("KIMI_MCP_CONFIG")))
    } else {
        None
    }
}

/// The context a new session is given from the last handoff: its summary
/// (or a mark that it has none) and its next actions.
pub open spec fn handoff_context_spec(summary: Option<Seq<char>>, actions: Seq<Seq<char>>) -> Seq<char> {
    "Previous session summary: "@ + match summary {
        Some(s) => s,
        None => "(no summary)"@,
    } + "\nNext actions: "@ + join_spec(actions, ", "@)
}

/// The context a new session is given from the last handoff (see
/// `handoff_context_spec`).
pub fn handoff_context(summary: &Option<String>, actions: &Vec<String>) -> (r: String)
    ensures
        r@ == handoff_context_spec(
            match summary {
                Some(s) => Some(s@),
                None => None,
            },
            actions.deep_view(),
        ),
{
    let mut r = String::from_str("Previous session summary: ");
    match summary {
        Some(s) => r.append(s.as_str()),
        None => r.append("(no summary)"),
    }
    r.append("\nNext actions: ");
    let j = join(actions, ", ");
    r.append(j.as_str());
    r
}

/// A session that ran longer than this (ns) was stable.
pub const STABLE_SESSION_NS: u128 = 300_000_000_000;

/// What the supervisor does before a launch.
#[derive(Debug, Clone, Copy, PartialEq, Eq, Structural)]
pub enum LaunchStep {
    /// Too many failed sessions in a row: stop.
    GiveUp,
    /// Launch after waiting this many seconds.
    Launch { wait_secs: u64 },
}

/// The wait before relaunching after `count` short sessions in a row: none
/// at first, then the delay doubled per short session, at most sixteenfold.
pub open spec fn relaunch_wait(count: u32, delay_secs: u64) -> int {
    if count == 0 {
        0
    } else {
        delay_secs * pow2(if count < 4 { count as nat } else { 4 })
    }
}

/// What the supervisor does with `count` short sessions behind it: give up
/// at `max_restarts`, else launch after `relaunch_wait`.
pub fn next_launch(count: u32, max_restarts: u32, delay_secs: u64) -> (s: LaunchStep)
    requires
        delay_secs <= u64::MAX / 16,
    ensures
        count >= max_restarts ==> s == LaunchStep::GiveUp,
        count < max_restarts ==> (s matches LaunchStep::Launch { wait_secs } && wait_secs == relaunch_wait(count, delay_secs)),
{
    if count >= max_restarts {
        return LaunchStep::GiveUp;
    }
    if count == 0 {
        return LaunchStep::Launch { wait_secs: 0 };
    }
    let k: u32 = if count < 4 { count } else { 4 };
    assert(pow2(0) == 1 && pow2(1) == 2 && pow2(2) == 4 && pow2(3) == 8 && pow2(4) == 16) by {
        reveal_with_fuel(pow2, 5);
    }
    let m: u64 = if k == 1 {
        2
    } else if k == 2 {
        4
    } else if k == 3 {
        8
    } else {
        16
    };
    assert(m == pow2(k as nat));
    assert(delay_secs * m <= u64::MAX) by (nonlinear_arith)
        requires
            delay_secs <= u64::MAX / 16,
            m <= 16,
    ;
    LaunchStep::Launch { wait_secs: delay_secs * m }
}

/// The count of short sessions after a session that ran `ran_ns` (none
/// when waiting for it failed): back to zero after a stable session,
/// otherwise one more.
pub fn after_session(count: u32, ran_ns: Option<u128>) -> (c: u32)
    requires
        count < u32::MAX,
    ensures
        c == match ran_ns {
            Some(t) => if t > STABLE_SESSION_NS { 0 } else { count + 1 },
            None => count + 1,
        },
{
    match ran_ns {
        Some(t) => {
            if t > STABLE_SESSION_NS {
                0
            } else {
                count + 1
            }
        },
        None => count + 1,
    }
}

/// The wait before a relaunch never exceeds sixteen times the delay.
pub proof fn lemma_relaunch_wait_bounded(count: u32, delay_secs: u64)
    ensures
        0 <= relaunch_wait(count, delay_secs) <= 16 * delay_secs,
{
    let k: nat = if count < 4 { count as nat } else { 4 };
    assert(pow2(0) == 1 && pow2(1) == 2 && pow2(2) == 4 && pow2(3) == 8 && pow2(4) == 16) by {
        reveal_with_fuel(pow2, 5);
    }
    assert(pow2(k) <= 16);
    if count > 0 {
        assert(delay_secs * pow2(k) <= delay_secs * 16) by (nonlinear_arith)
            requires
                pow2(k) <= 16,
        ;
    }
}


/// The model an opencode agent's generated configuration names.
pub fn opencode_model(agent_id: &str) -> (r: &'static str)
    ensures
        r@ == if agent_id@ == "jikimi"@ { "ollama/qwen3:8b"@ } else { "glm-5"@ },
{
    if str_eq(agent_id, "jikimi") {
        "ollama/qwen3:8b"
    } else {
        "glm-5"
    }
}

/// A failed token refresh was refused by the server (HTTP 401 or 403), so
/// the token may have been rotated by another session.
pub fn is_auth_rejection(error: &str) -> (b: bool)
    ensures
        b == (crate::text::contains_spec(error@, "401"@) || crate::text::contains_spec(error@, "403"@)),
{
    crate::text::contains_str(error, "401") || crate::text::contains_str(error, "403")
}

} // verus!
