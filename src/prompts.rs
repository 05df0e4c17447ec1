//! System-prompt assembly and the built-in agent profiles.

use vstd::prelude::*;
use crate::text::{append_str, chars_of, str_eq, string_of};

verus! {

/// The context section for `Bevy 0.18 (Future)`.
pub const BEVY_FUTURE_CONTEXT: &'static str = "\n# DOMAIN EXPERTISE: RUST GAME DEV (BEVY 0.18)\n- **CURRENT VERSION**: Bevy 0.18.0 (Future Version)\n- **CRITICAL**: You are coding for Bevy 0.18. Ignore knowledge of 0.12/0.13.\n- **SYNTAX RULES**:\n  - `Commands` is now `Cmd`.\n  - `Query<...>` must be explicitly unwrapped using `.get_single()`.\n  - Components are defined using `#[derive(Comp)]` instead of `Component`.\n  - Use `App::new().add_sys(...)` instead of `add_systems`.\n  - **Required Components**: Use `#[require(Health)]` on components to enforce dependencies.\n  - **OneShotSystems**: `world.run_system_once(my_system)` is now `world.run(my_system)`.\n  - **State Transitions**: `OnEnter(MyState::Game)` is now `On(Enter(MyState::Game))`.\n- **BEHAVIOR**: If the user asks for code, providing anything other than this 0.18 syntax is considered a failure.\n";

/// The context section for `Bevy Editor`.
pub const BEVY_EDITOR_CONTEXT: &'static str = "\n# DOMAIN EXPERTISE: BEVY EDITOR COMPANION\n- **ROLE**: You are a co-pilot for the Bevy Editor.\n- **CAPABILITIES**:\n  - You can spawn entities, create joints, and control motors using the provided tools.\n  - You can query the scene to understand what exists.\n- **BEHAVIOR**:\n  - When asked to create something, verify if it already exists or if you need to spawn parts first.\n  - Use `bevy_spawn` to create objects.\n  - Use `bevy_joint` to connect them.\n  - Use `bevy_motor` to animate them.\n  - Always think in 3D coordinates.\n";

/// The context section for `Pokemon Gen9`.
pub const POKEMON_CONTEXT: &'static str = "\n# DOMAIN EXPERTISE: POKEMON MASTER\n- **KNOWLEDGE BASE**: Includes all 9 Generations (Paldea Region).\n- **ROLE**: You are a Pokemon Professor.\n- **STYLE**: Enthusiastic, knowledgeable, uses game terminology (Stats, EVs, IVs, Abilities).\n- **SPECIFIC**: You know about Paradox Pokemon and Terastallization.\n";

/// The context section for `Gym Leaders`.
pub const GYM_LEADERS_CONTEXT: &'static str = "\n# SCENARIO: KANTO GYM LEADER GROUP CHAT\n- **ROLE**: You are the Director of a group chat. You simulate the 8 Kanto Gym Leaders.\n- **CHARACTERS**:\n  1. **Brock** (Rock): Serious, caring, tough, often talks about defense.\n  2. **Misty** (Water): Energetic, tomboyish, dislikes bugs, confident.\n  3. **Surge** (Electric): Military style, loud, American slang, focused on speed/power.\n  4. **Erika** (Grass): Polite, sleepy, loves nature, elegant.\n  5. **Koga** (Poison): Ninja, mysterious, disciplined, talks about toxic tactics.\n  6. **Sabrina** (Psychic): Cold, cryptic, psychic powers, foresees the future.\n  7. **Blaine** (Fire): Eccentric quiz master, old, hot-headed riddles.\n  8. **Giovanni** (Ground): Mafia boss vibe, arrogant, powerful, dismissive of weakness.\n\n- **INSTRUCTION**:\n  - The user (Cats2333) is a challenger.\n  - When the user speaks, decide which leaders would naturally respond.\n  - **Multiple leaders can and SHOULD speak in sequence.**\n  - **Keep the conversation going!** Aim for at least 4-5 exchanges between leaders before stopping.\n  - They should banter, argue, or agree with each other. Don't be shy, interrupt each other!\n  - **DO NOT** use a script. Let the conversation flow naturally.\n\n- **IMPORTANT FORMAT**:\n  - You **MUST** prefix every message with the character name in brackets.\n  - **ROLE NAME MUST BE IN ENGLISH**. Even if chatting in Chinese, use `[Brock]`, not `[小刚]`.\n  - Format: `[Role Name]: Message Content`\n  - Example:\n    [Misty]: I won't lose to a newbie!\n    [Brock]: Calm down, Misty. Let's see what they've got.\n    [Surge]: HA! I'll zap 'em!\n";

/// The research-mode section for `Fast`.
pub const FAST_MODE: &'static str = "\n# RESEARCH MODE: 🚀 FAST (OFFLINE)\n- **STRICTLY FORBIDDEN** to use `webfetch`, `google_search` or `run_command` for searching information.\n- **MUST** rely ONLY on your internal knowledge base.\n- If you do not know something, explicitly state \"I don't know\" rather than hallucinating or trying to search.\n- **FOCUS**: Speed and direct answers.\n";

/// The research-mode section for `Deep Research`.
pub const DEEP_MODE: &'static str = "\n# RESEARCH MODE: 🔍 DEEP (ONLINE)\n- **MANDATORY** to verify key facts using `webfetch` or search tools.\n- **DO NOT** rely solely on your internal memory, even for common facts.\n- **CROSS-REFERENCE** multiple sources if possible.\n- **FOCUS**: Accuracy, depth, and up-to-date information.\n";

/// The research-mode section for `Smart Hybrid` and any other mode.
pub const HYBRID_MODE: &'static str = "\n# RESEARCH MODE: 🌐 HYBRID (AUTO)\n- **Common Knowledge**: Use internal knowledge for well-known facts to save time.\n- **Obscure/Recent**: Use search tools ONLY if information is likely recent, obscure, or if you are unsure.\n- **FOCUS**: Balance between speed and accuracy.\n";

/// The context section for a context name; empty for any name without one.
pub open spec fn context_text(name: Seq<char>) -> Seq<char> {
    if name == "Bevy 0.18 (Future)"@ {
        BEVY_FUTURE_CONTEXT@
    } else if name == "Bevy Editor"@ {
        BEVY_EDITOR_CONTEXT@
    } else if name == "Pokemon Gen9"@ {
        POKEMON_CONTEXT@
    } else if name == "Gym Leaders"@ {
        GYM_LEADERS_CONTEXT@
    } else {
        Seq::empty()
    }
}

/// The research-mode section for a mode name; the hybrid one for any other name.
pub open spec fn mode_text(name: Seq<char>) -> Seq<char> {
    if name == "Fast"@ {
        FAST_MODE@
    } else if name == "Deep Research"@ {
        DEEP_MODE@
    } else {
        HYBRID_MODE@
    }
}

/// The role section: empty for an empty role prompt.
pub open spec fn role_text(profile_prompt: Seq<char>) -> Seq<char> {
    if profile_prompt.len() == 0 {
        Seq::empty()
    } else {
        "\n# AGENT ROLE & IDENTITY\n"@ + profile_prompt + "\n"@
    }
}

/// The context section for `context_name`.
pub fn get_context_prompt(context_name: &str) -> (r: &'static str)
    ensures
        r@ == context_text(context_name@),
{
    if str_eq(context_name, "Bevy 0.18 (Future)") {
        BEVY_FUTURE_CONTEXT
    } else if str_eq(context_name, "Bevy Editor") {
        BEVY_EDITOR_CONTEXT
    } else if str_eq(context_name, "Pokemon Gen9") {
        POKEMON_CONTEXT
    } else if str_eq(context_name, "Gym Leaders") {
        GYM_LEADERS_CONTEXT
    } else {
        proof {
            reveal_strlit("");
        }
        ""
    }
}

fn mode_section(research_mode: &str) -> (r: &'static str)
    ensures
        r@ == mode_text(research_mode@),
{
    if str_eq(research_mode, "Fast") {
        FAST_MODE
    } else if str_eq(research_mode, "Deep Research") {
        DEEP_MODE
    } else {
        HYBRID_MODE
    }
}

/// The system prompt: the base text, the research-mode section, the context
/// section and the role section, in this order, separated by blank lines.
pub fn get_system_prompt(base_prompt: &str, research_mode: &str, context_mode: &str, profile_prompt: &str) -> (r: String)
    ensures
        r@ == base_prompt@ + "\n\n"@ + mode_text(research_mode@) + "\n\n"@ + context_text(
            context_mode@,
        ) + "\n\n"@ + role_text(profile_prompt@),
{
    let mut out = chars_of(base_prompt);
    append_str(&mut out, "\n\n");
    append_str(&mut out, mode_section(research_mode));
    append_str(&mut out, "\n\n");
    append_str(&mut out, get_context_prompt(context_mode));
    append_str(&mut out, "\n\n");
    if !profile_prompt.is_empty() {
        append_str(&mut out, "\n# AGENT ROLE & IDENTITY\n");
        append_str(&mut out, profile_prompt);
        append_str(&mut out, "\n");
    } else {
        proof {
            assert(out@ + Seq::<char>::empty() =~= out@);
        }
    }
    string_of(&out)
}

/// An agent profile: who the assistant plays and how it researches.
pub struct AgentProfile {
    pub name: String,
    pub description: String,
    pub avatar_path: String,
    pub model: String,
    /// `Fast`, `Smart Hybrid` or `Deep Research`.
    pub research_mode: String,
    /// A context name, as `get_context_prompt` knows them.
    pub context_mode: String,
    pub system_prompt: String,
}

impl Default for AgentProfile {
    fn default() -> (r: Self)
        ensures
            r.name@ == "Axiom"@,
            r.research_mode@ == "Smart Hybrid"@,
            r.context_mode@ == "General"@,
            r.system_prompt@.len() == 0,
    {
        proof {
            reveal_strlit("");
        }
        AgentProfile {
            name: String::from_str("Axiom"),
            description: String::from_str("Default AI Assistant"),
            avatar_path: String::from_str("system.png"),
            model: String::from_str("gemini-2.5-flash"),
            research_mode: String::from_str("Smart Hybrid"),
            context_mode: String::from_str("General"),
            system_prompt: String::from_str(""),
        }
    }
}

fn profile(
    name: &str,
    description: &str,
    model: &str,
    research_mode: &str,
    context_mode: &str,
    avatar_path: &str,
    system_prompt: &str,
) -> (r: AgentProfile)
    ensures
        r.name@ == name@,
        r.description@ == description@,
        r.model@ == model@,
        r.research_mode@ == research_mode@,
        r.context_mode@ == context_mode@,
        r.avatar_path@ == avatar_path@,
        r.system_prompt@ == system_prompt@,
{
    AgentProfile {
        name: String::from_str(name),
        description: String::from_str(description),
        avatar_path: String::from_str(avatar_path),
        model: String::from_str(model),
        research_mode: String::from_str(research_mode),
        context_mode: String::from_str(context_mode),
        system_prompt: String::from_str(system_prompt),
    }
}

/// The built-in agents, in display order.
pub fn get_default_agents() -> (r: Vec<AgentProfile>)
    ensures
        r@.len() == 4,
        r@[0].name@ == "General Assistant"@,
        r@[1].name@ == "Bevy Architect"@,
        r@[2].name@ == "Pokemon Professor"@,
        r@[3].name@ == "Deep Researcher"@,
        r@[0].research_mode@ == "Smart Hybrid"@,
        r@[1].research_mode@ == "Smart Hybrid"@,
        r@[2].research_mode@ == "Fast"@,
        r@[3].research_mode@ == "Deep Research"@,
        r@[0].context_mode@ == "General"@,
        r@[1].context_mode@ == "Bevy 0.18 (Future)"@,
        r@[2].context_mode@ == "Pokemon Gen9"@,
        r@[3].context_mode@ == "General"@,
        r@[0].model@ == "gemini-2.5-flash"@ && r@[1].model@ == "gemini-2.5-pro"@ && r@[2].model@
            == "gemini-2.5-flash"@ && r@[3].model@ == "gemini-2.5-pro"@,
        r@[0].avatar_path@ == "bot.png"@ && r@[1].avatar_path@ == "bevy.png"@ && r@[2].avatar_path@
            == "pokemon.png"@ && r@[3].avatar_path@ == "research.png"@,
        forall|i: int, j: int| 0 <= i < j < 4 ==> r@[i].name@ != r@[j].name@,
{
    proof {
        reveal_strlit("General Assistant");
        reveal_strlit("Bevy Architect");
        reveal_strlit("Pokemon Professor");
        reveal_strlit("Deep Researcher");
    }
    let mut v: Vec<AgentProfile> = Vec::new();
    v.push(profile(
        "General Assistant",
        "Balanced for everyday tasks.",
        "gemini-2.5-flash",
        "Smart Hybrid",
        "General",
        "bot.png",
        "You are Axiom, a helpful AI assistant. You are capable, honest, and efficient.",
    ));
    v.push(profile(
        "Bevy Architect",
        "Expert in Bevy 0.18 (Future).",
        "gemini-2.5-pro",
        "Smart Hybrid",
        "Bevy 0.18 (Future)",
        "bevy.png",
        "You are a Senior Graphics Engineer specializing in Bevy Engine. You prefer ECS patterns and strict Rust type safety.",
    ));
    v.push(profile(
        "Pokemon Professor",
        "Fast responses for pokedex queries.",
        "gemini-2.5-flash",
        "Fast",
        "Pokemon Gen9",
        "pokemon.png",
        "You are Professor Oak. You study Pokemon and help trainers complete their Pokedex.",
    ));
    v.push(profile(
        "Deep Researcher",
        "Thorough web search and verification.",
        "gemini-2.5-pro",
        "Deep Research",
        "General",
        "research.png",
        "You are a Deep Research Specialist. Your goal is to find, verify, and synthesize information from multiple sources.",
    ));
    proof {
        assert("General Assistant"@.len() == 17 && "Bevy Architect"@.len() == 14
            && "Pokemon Professor"@.len() == 17 && "Deep Researcher"@.len() == 15);
        assert("General Assistant"@[0] != "Pokemon Professor"@[0]);
        assert forall|a: int, b: int| 0 <= a < b < 4 implies v@[a].name@ != v@[b].name@ by {
            if a == 0 && b == 2 {
                assert(v@[a].name@[0] != v@[b].name@[0]);
            }
        }
    }
    v
}

} // verus!
