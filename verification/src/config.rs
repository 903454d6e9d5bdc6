//! The agent's settings and how they are read from the variables that a
//! configuration file defines.
use crate::security::{SecurityConfig, SecurityMode, mode_named};
use crate::text::{owned, views};
use vstd::prelude::*;

verus! {

#[derive(Debug, Clone, Copy)]
pub struct AgentConfig {
    pub max_turns: u32,
    pub max_context_tokens: usize,
}

impl Default for AgentConfig {
    fn default() -> (r: Self)
        ensures
            r.max_turns == 20,
            r.max_context_tokens == 8192,
    {
        AgentConfig { max_turns: 20, max_context_tokens: 8192 }
    }
}

// ---------------------------------------------------------------------------
// Settings read from a configuration file
// ---------------------------------------------------------------------------
/// A number a configuration file binds, in the integer types the settings
/// take it in (each the number converted as `as` converts it).
#[derive(Debug, Clone, Copy)]
pub struct Number {
    pub as_u32: u32,
    pub as_usize: usize,
    pub as_u64: u64,
}

/// A value a configuration file binds to a name.
#[derive(Debug)]
pub enum Setting {
    Str(String),
    Num(Number),
    Bool(bool),
    List(Vec<Setting>),
    /// Any other kind of value.
    Other,
}

/// The value bound to `name`: the first binding of it.
pub open spec fn lookup(settings: Seq<(String, Setting)>, name: Seq<char>) -> Option<Setting>
    decreases settings.len(),
{
    if settings.len() == 0 {
        None
    } else if settings[0].0@ == name {
        Some(settings[0].1)
    } else {
        lookup(settings.drop_first(), name)
    }
}

pub open spec fn str_setting(v: Option<Setting>, default: Seq<char>) -> Seq<char> {
    match v {
        Some(Setting::Str(s)) => s@,
        _ => default,
    }
}

pub open spec fn optional_str_setting(v: Option<Setting>) -> Option<Seq<char>> {
    match v {
        Some(Setting::Str(s)) => if s@.len() > 0 {
            Some(s@)
        } else {
            None
        },
        _ => None,
    }
}

pub open spec fn bool_setting(v: Option<Setting>, default: bool) -> bool {
    match v {
        Some(Setting::Bool(b)) => b,
        _ => default,
    }
}

pub open spec fn u32_setting(v: Option<Setting>, default: u32) -> u32 {
    match v {
        Some(Setting::Num(n)) => n.as_u32,
        _ => default,
    }
}

pub open spec fn usize_setting(v: Option<Setting>, default: usize) -> usize {
    match v {
        Some(Setting::Num(n)) => n.as_usize,
        _ => default,
    }
}

pub open spec fn u64_setting(v: Option<Setting>, default: u64) -> u64 {
    match v {
        Some(Setting::Num(n)) => n.as_u64,
        _ => default,
    }
}

/// The strings among `items`, in order.
pub open spec fn strings_in(items: Seq<Setting>) -> Seq<Seq<char>>
    decreases items.len(),
{
    if items.len() == 0 {
        seq![]
    } else {
        match items.last() {
            Setting::Str(s) => strings_in(items.drop_last()).push(s@),
            _ => strings_in(items.drop_last()),
        }
    }
}

pub open spec fn str_list_setting(v: Option<Setting>) -> Seq<Seq<char>> {
    match v {
        Some(Setting::List(items)) => strings_in(items@),
        _ => seq![],
    }
}

pub fn lookup_setting<'a>(settings: &'a Vec<(String, Setting)>, name: &str) -> (r: Option<&'a Setting>)
    ensures
        match r {
            Some(v) => lookup(settings@, name@) == Some(*v),
            None => lookup(settings@, name@) is None,
        },
{
    let ghost sv = settings@;
    let key = owned(name);
    let mut i: usize = 0;
    assert(sv.skip(0) =~= sv);
    while i < settings.len()
        invariant
            sv == settings@,
            key@ == name@,
            i <= sv.len(),
            lookup(sv.skip(i as int), name@) == lookup(sv, name@),
        decreases settings.len() - i,
    {
        assert(sv.skip(i as int)[0] == sv[i as int]);
        let entry = &settings[i];
        let same = entry.0 == key;
        if same {
            return Some(&entry.1);
        }
        assert(sv.skip(i as int).drop_first() =~= sv.skip(i + 1));
        i = i + 1;
    }
    assert(sv.skip(i as int).len() == 0);
    None
}

pub open spec fn deref_opt(v: Option<&Setting>) -> Option<Setting> {
    match v {
        Some(x) => Some(*x),
        None => None,
    }
}

pub fn get_str(v: Option<&Setting>, default: &str) -> (r: String)
    ensures
        r@ == str_setting(deref_opt(v), default@),
{
    match v {
        Some(Setting::Str(s)) => owned(s.as_str()),
        _ => owned(default),
    }
}

pub fn get_optional_str(v: Option<&Setting>) -> (r: Option<String>)
    ensures
        match r {
            Some(s) => optional_str_setting(deref_opt(v)) == Some(s@),
            None => optional_str_setting(deref_opt(v)) is None,
        },
{
    match v {
        Some(Setting::Str(s)) => if !s.as_str().is_empty() {
            Some(owned(s.as_str()))
        } else {
            None
        },
        _ => None,
    }
}

pub fn get_bool(v: Option<&Setting>, default: bool) -> (r: bool)
    ensures
        r == bool_setting(deref_opt(v), default),
{
    match v {
        Some(Setting::Bool(b)) => *b,
        _ => default,
    }
}

pub fn get_u32(v: Option<&Setting>, default: u32) -> (r: u32)
    ensures
        r == u32_setting(deref_opt(v), default),
{
    match v {
        Some(Setting::Num(n)) => n.as_u32,
        _ => default,
    }
}

pub fn get_usize(v: Option<&Setting>, default: usize) -> (r: usize)
    ensures
        r == usize_setting(deref_opt(v), default),
{
    match v {
        Some(Setting::Num(n)) => n.as_usize,
        _ => default,
    }
}

pub fn get_u64(v: Option<&Setting>, default: u64) -> (r: u64)
    ensures
        r == u64_setting(deref_opt(v), default),
{
    match v {
        Some(Setting::Num(n)) => n.as_u64,
        _ => default,
    }
}

pub fn get_str_list(v: Option<&Setting>) -> (r: Vec<String>)
    ensures
        views(r@) == str_list_setting(deref_opt(v)),
{
    match v {
        Some(Setting::List(items)) => {
            let ghost iv = items@;
            let mut r: Vec<String> = Vec::new();
            let mut i: usize = 0;
            while i < items.len()
                invariant
                    iv == items@,
                    i <= iv.len(),
                    views(r@) == strings_in(iv.take(i as int)),
                decreases items.len() - i,
            {
                proof {
                    assert(iv.take(i + 1).drop_last() =~= iv.take(i as int));
                    assert(iv.take(i + 1).last() == iv[i as int]);
                }
                let ghost before = views(r@);
                match &items[i] {
                    Setting::Str(s) => {
                        r.push(owned(s.as_str()));
                        assert(views(r@) =~= before.push(s@));
                    },
                    _ => {},
                }
                i = i + 1;
            }
            assert(iv.take(iv.len() as int) =~= iv);
            r
        },
        _ => Vec::new(),
    }
}

/// The settings a configuration file gives, but for the sampling
/// temperature.
#[derive(Debug)]
pub struct ParsedConfig {
    pub backend_type: String,
    pub backend_url: String,
    pub backend_model: String,
    pub backend_max_tokens: u32,
    pub agent: AgentConfig,
    pub security: SecurityConfig,
}

/// The names the configuration is read from.
pub fn setting_names() -> (r: Vec<&'static str>)
    ensures
        r@.map_values(|n: &str| n@) == seq![
            "backend-type"@,
            "backend-url"@,
            "backend-model"@,
            "backend-temperature"@,
            "backend-max-tokens"@,
            "agent-max-turns"@,
            "agent-max-context-tokens"@,
            "security-mode"@,
            "security-allow-network"@,
            "security-require-confirm-rm"@,
            "security-require-confirm-sudo"@,
            "security-require-confirm-write-system"@,
            "security-require-confirm-eval"@,
            "security-blocked-commands"@,
            "security-blocked-functions"@,
            "security-blocked-paths"@,
            "security-blocked-domains"@,
            "security-allowed-domains"@,
            "security-sandbox-paths"@,
            "security-max-ops-per-turn"@,
            "security-max-output-bytes"@,
            "security-exec-timeout-secs"@,
            "security-audit-log"@
        ],
{
    let mut r: Vec<&'static str> = Vec::new();
    r.push("backend-type");
    r.push("backend-url");
    r.push("backend-model");
    r.push("backend-temperature");
    r.push("backend-max-tokens");
    r.push("agent-max-turns");
    r.push("agent-max-context-tokens");
    r.push("security-mode");
    r.push("security-allow-network");
    r.push("security-require-confirm-rm");
    r.push("security-require-confirm-sudo");
    r.push("security-require-confirm-write-system");
    r.push("security-require-confirm-eval");
    r.push("security-blocked-commands");
    r.push("security-blocked-functions");
    r.push("security-blocked-paths");
    r.push("security-blocked-domains");
    r.push("security-allowed-domains");
    r.push("security-sandbox-paths");
    r.push("security-max-ops-per-turn");
    r.push("security-max-output-bytes");
    r.push("security-exec-timeout-secs");
    r.push("security-audit-log");
    assert(r@.map_values(|n: &str| n@) =~= seq![
            "backend-type"@,
            "backend-url"@,
            "backend-model"@,
            "backend-temperature"@,
            "backend-max-tokens"@,
            "agent-max-turns"@,
            "agent-max-context-tokens"@,
            "security-mode"@,
            "security-allow-network"@,
            "security-require-confirm-rm"@,
            "security-require-confirm-sudo"@,
            "security-require-confirm-write-system"@,
            "security-require-confirm-eval"@,
            "security-blocked-commands"@,
            "security-blocked-functions"@,
            "security-blocked-paths"@,
            "security-blocked-domains"@,
            "security-allowed-domains"@,
            "security-sandbox-paths"@,
            "security-max-ops-per-turn"@,
            "security-max-output-bytes"@,
            "security-exec-timeout-secs"@,
            "security-audit-log"@
        ]);
    r
}

pub open spec fn setting(settings: Seq<(String, Setting)>, name: Seq<char>) -> Option<Setting> {
    lookup(settings, name)
}

/// Reads the configuration from the settings bound by name; a missing or
/// mistyped setting takes its default. The security mode is named as
/// `SecurityMode::from_name` reads it.
pub fn parse_settings(settings: &Vec<(String, Setting)>) -> (r: ParsedConfig)
    ensures
        r.backend_type@ == str_setting(setting(settings@, "backend-type"@), "llama"@),
        r.backend_url@ == str_setting(
            setting(settings@, "backend-url"@),
            "http://localhost:8080/v1"@,
        ),
        r.backend_model@ == str_setting(setting(settings@, "backend-model"@), "local"@),
        r.backend_max_tokens == u32_setting(setting(settings@, "backend-max-tokens"@), 4096),
        r.agent.max_turns == u32_setting(setting(settings@, "agent-max-turns"@), 20),
        r.agent.max_context_tokens == usize_setting(
            setting(settings@, "agent-max-context-tokens"@),
            8192,
        ),
        r.security.mode == mode_named(str_setting(setting(settings@, "security-mode"@), "Confirm"@)),
        r.security.allow_network == bool_setting(setting(settings@, "security-allow-network"@), true),
        r.security.require_confirm_rm == bool_setting(
            setting(settings@, "security-require-confirm-rm"@),
            true,
        ),
        r.security.require_confirm_sudo == bool_setting(
            setting(settings@, "security-require-confirm-sudo"@),
            true,
        ),
        r.security.require_confirm_write_system == bool_setting(
            setting(settings@, "security-require-confirm-write-system"@),
            true,
        ),
        r.security.require_confirm_eval == bool_setting(
            setting(settings@, "security-require-confirm-eval"@),
            true,
        ),
        views(r.security.blocked_commands@) == str_list_setting(
            setting(settings@, "security-blocked-commands"@),
        ),
        views(r.security.blocked_functions@) == str_list_setting(
            setting(settings@, "security-blocked-functions"@),
        ),
        views(r.security.blocked_paths@) == str_list_setting(
            setting(settings@, "security-blocked-paths"@),
        ),
        views(r.security.blocked_domains@) == str_list_setting(
            setting(settings@, "security-blocked-domains"@),
        ),
        views(r.security.allowed_domains@) == str_list_setting(
            setting(settings@, "security-allowed-domains"@),
        ),
        views(r.security.sandbox_paths@) == str_list_setting(
            setting(settings@, "security-sandbox-paths"@),
        ),
        r.security.max_ops_per_turn == usize_setting(
            setting(settings@, "security-max-ops-per-turn"@),
            50,
        ),
        r.security.max_output_bytes == usize_setting(
            setting(settings@, "security-max-output-bytes"@),
            1048576,
        ),
        r.security.exec_timeout_secs == u64_setting(
            setting(settings@, "security-exec-timeout-secs"@),
            60,
        ),
        match r.security.audit_log {
            Some(p) => optional_str_setting(setting(settings@, "security-audit-log"@)) == Some(p@),
            None => optional_str_setting(setting(settings@, "security-audit-log"@)) is None,
        },
{
    let backend_type = get_str(lookup_setting(settings, "backend-type"), "llama");
    let backend_url = get_str(lookup_setting(settings, "backend-url"), "http://localhost:8080/v1");
    let backend_model = get_str(lookup_setting(settings, "backend-model"), "local");
    let backend_max_tokens = get_u32(lookup_setting(settings, "backend-max-tokens"), 4096);
    let agent = AgentConfig {
        max_turns: get_u32(lookup_setting(settings, "agent-max-turns"), 20),
        max_context_tokens: get_usize(lookup_setting(settings, "agent-max-context-tokens"), 8192),
    };
    let mode_name = get_str(lookup_setting(settings, "security-mode"), "Confirm");
    let security = SecurityConfig {
        mode: SecurityMode::from_name(mode_name.as_str()),
        allow_network: get_bool(lookup_setting(settings, "security-allow-network"), true),
        require_confirm_rm: get_bool(lookup_setting(settings, "security-require-confirm-rm"), true),
        require_confirm_sudo: get_bool(
            lookup_setting(settings, "security-require-confirm-sudo"),
            true,
        ),
        require_confirm_write_system: get_bool(
            lookup_setting(settings, "security-require-confirm-write-system"),
            true,
        ),
        require_confirm_eval: get_bool(
            lookup_setting(settings, "security-require-confirm-eval"),
            true,
        ),
        blocked_commands: get_str_list(lookup_setting(settings, "security-blocked-commands")),
        blocked_functions: get_str_list(lookup_setting(settings, "security-blocked-functions")),
        blocked_paths: get_str_list(lookup_setting(settings, "security-blocked-paths")),
        blocked_domains: get_str_list(lookup_setting(settings, "security-blocked-domains")),
        allowed_domains: get_str_list(lookup_setting(settings, "security-allowed-domains")),
        sandbox_paths: get_str_list(lookup_setting(settings, "security-sandbox-paths")),
        max_ops_per_turn: get_usize(lookup_setting(settings, "security-max-ops-per-turn"), 50),
        max_output_bytes: get_usize(
            lookup_setting(settings, "security-max-output-bytes"),
            1048576,
        ),
        exec_timeout_secs: get_u64(lookup_setting(settings, "security-exec-timeout-secs"), 60),
        audit_log: get_optional_str(lookup_setting(settings, "security-audit-log")),
    };
    ParsedConfig { backend_type, backend_url, backend_model, backend_max_tokens, agent, security }
}

/// A setting bound with a value of its kind is taken as given; a missing
/// one, or one of another kind, takes its default.
pub proof fn law_settings_taken_as_given(
    v: Option<Setting>,
    s: Seq<char>,
    b: bool,
    n32: u32,
    nus: usize,
    n64: u64,
)
    ensures
        v matches Some(Setting::Num(n)) ==> u32_setting(v, n32) == n.as_u32 && usize_setting(
            v,
            nus,
        ) == n.as_usize && u64_setting(v, n64) == n.as_u64,
        v matches Some(Setting::Str(t)) ==> str_setting(v, s) == t@,
        v matches Some(Setting::Bool(x)) ==> bool_setting(v, b) == x,
        !(v matches Some(Setting::Num(_))) ==> u32_setting(v, n32) == n32 && usize_setting(v, nus)
            == nus && u64_setting(v, n64) == n64,
        !(v matches Some(Setting::Str(_))) ==> str_setting(v, s) == s,
        !(v matches Some(Setting::Bool(_))) ==> bool_setting(v, b) == b,
{
}

/// The value of a name is that of its first binding: where `settings[k]`
/// binds `name` and no earlier entry does, `setting` gives its value; where
/// no entry binds it, nothing.
pub proof fn law_first_binding_counts(settings: Seq<(String, Setting)>, name: Seq<char>, k: int)
    requires
        0 <= k < settings.len(),
        settings[k].0@ == name,
        forall|j: int| 0 <= j < k ==> settings[j].0@ != name,
    ensures
        setting(settings, name) == Some(settings[k].1),
    decreases k,
{
    if k > 0 {
        let tail = settings.drop_first();
        assert forall|j: int| 0 <= j < k - 1 implies tail[j].0@ != name by {
            assert(tail[j] == settings[j + 1]);
        }
        assert(tail[k - 1] == settings[k]);
        law_first_binding_counts(tail, name, k - 1);
    }
}

/// A name that no entry binds has no value.
pub proof fn law_unbound_name(settings: Seq<(String, Setting)>, name: Seq<char>)
    requires
        forall|j: int| 0 <= j < settings.len() ==> settings[j].0@ != name,
    ensures
        setting(settings, name) is None,
    decreases settings.len(),
{
    if settings.len() > 0 {
        let tail = settings.drop_first();
        assert forall|j: int| 0 <= j < tail.len() implies tail[j].0@ != name by {
            assert(tail[j] == settings[j + 1]);
        }
        law_unbound_name(tail, name);
    }
}

/// A list setting gives the strings of its list, in order, skipping what is
/// not a string; a list of strings is taken whole. An optional text setting
/// is the text where it is a non-empty string, and nothing otherwise.
pub proof fn law_list_and_optional_settings(v: Option<Setting>, items: Seq<Setting>)
    ensures
        v matches Some(Setting::List(l)) ==> str_list_setting(v) == strings_in(l@),
        !(v matches Some(Setting::List(_))) ==> str_list_setting(v).len() == 0,
        (forall|i: int| 0 <= i < items.len() ==> items[i] is Str) ==> strings_in(items).len()
            == items.len() && forall|i: int|
            0 <= i < items.len() ==> #[trigger] strings_in(items)[i] == str_setting(
                Some(items[i]),
                seq![],
            ),
        v matches Some(Setting::Str(t)) ==> optional_str_setting(v) == (if t@.len() > 0 {
            Some(t@)
        } else {
            None::<Seq<char>>
        }),
        !(v matches Some(Setting::Str(_))) ==> optional_str_setting(v) is None,
    decreases items.len(),
{
    if items.len() > 0 {
        law_list_and_optional_settings(None, items.drop_last());
        if forall|i: int| 0 <= i < items.len() ==> items[i] is Str {
            let d = items.drop_last();
            assert forall|i: int| 0 <= i < d.len() implies d[i] is Str by {
                assert(d[i] == items[i]);
            }
            assert forall|i: int| 0 <= i < items.len() implies #[trigger] strings_in(items)[i]
                == str_setting(Some(items[i]), seq![]) by {
                if i < items.len() - 1 {
                    assert(d[i] == items[i]);
                }
            }
        }
    }
}

} // verus!
