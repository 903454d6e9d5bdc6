//! The security policy that guards tool code: pre-flight checks, the list of
//! reasons that call for a confirmation, the user's answer, the audit entry
//! and the bound on tool output.
use crate::pattern::{
    any_match, compile_all, compiled_texts, first_match, first_match_index, regex_compiles, regex_escape,
    regex_finds, regex_group,
    regex_escape_of, sources, Pattern,
};
use crate::text::{
    chars_of, concat, contains, contains_str, decimal, join, join_strings, lowercase, owned,
    push_decimal, to_lowercase, trim, trim_str, views,
};
use vstd::prelude::*;
use vstd::string::StringSliceAdditionalSpecFns;
use vstd::utf8::*;

verus! {

broadcast use vstd::utf8::encode_utf8_decode_utf8;

#[derive(Debug, Clone, Copy, PartialEq, Eq, Structural)]
pub enum SecurityMode {
    Off,
    Confirm,
    Strict,
}

impl Default for SecurityMode {
    fn default() -> (r: Self)
        ensures
            r == SecurityMode::Confirm,
    {
        SecurityMode::Confirm
    }
}

/// The mode a setting names: `off`, `confirm` or `strict` in any letter
/// case; anything else falls back to the default mode.
pub open spec fn mode_named(name: Seq<char>) -> SecurityMode {
    if lowercase(name) == "off"@ {
        SecurityMode::Off
    } else if lowercase(name) == "strict"@ {
        SecurityMode::Strict
    } else {
        SecurityMode::Confirm
    }
}

impl SecurityMode {
    pub fn from_name(name: &str) -> (r: Self)
        ensures
            r == mode_named(name@),
    {
        let l = to_lowercase(name);
        let off = owned("off");
        let strict = owned("strict");
        if l == off {
            SecurityMode::Off
        } else if l == strict {
            SecurityMode::Strict
        } else {
            SecurityMode::Confirm
        }
    }
}

#[derive(Debug, Clone)]
pub struct SecurityConfig {
    pub mode: SecurityMode,
    pub blocked_commands: Vec<String>,
    pub blocked_paths: Vec<String>,
    pub blocked_functions: Vec<String>,
    pub require_confirm_rm: bool,
    pub require_confirm_sudo: bool,
    pub require_confirm_write_system: bool,
    pub require_confirm_eval: bool,
    pub allow_network: bool,
    pub blocked_domains: Vec<String>,
    pub allowed_domains: Vec<String>,
    pub sandbox_paths: Vec<String>,
    pub max_ops_per_turn: usize,
    pub max_output_bytes: usize,
    pub exec_timeout_secs: u64,
    pub audit_log: Option<String>,
}

pub fn default_blocked_commands() -> (r: Vec<String>)
    ensures
        views(r@) == seq!["rm -rf /"@, "mkfs"@, ":(){ :|:& };:"@],
{
    let mut r: Vec<String> = Vec::new();
    r.push(owned("rm -rf /"));
    r.push(owned("mkfs"));
    r.push(owned(":(){ :|:& };:"));
    assert(views(r@) =~= seq!["rm -rf /"@, "mkfs"@, ":(){ :|:& };:"@]);
    r
}

pub fn default_blocked_paths() -> (r: Vec<String>)
    ensures
        views(r@) == seq!["/etc"@, "/boot"@, "/sys"@, "/proc"@],
{
    let mut r: Vec<String> = Vec::new();
    r.push(owned("/etc"));
    r.push(owned("/boot"));
    r.push(owned("/sys"));
    r.push(owned("/proc"));
    assert(views(r@) =~= seq!["/etc"@, "/boot"@, "/sys"@, "/proc"@]);
    r
}

pub fn default_blocked_functions() -> (r: Vec<String>)
    ensures
        views(r@) == seq!["exit"@, "setenv"@],
{
    let mut r: Vec<String> = Vec::new();
    r.push(owned("exit"));
    r.push(owned("setenv"));
    assert(views(r@) =~= seq!["exit"@, "setenv"@]);
    r
}

pub fn default_blocked_domains() -> (r: Vec<String>)
    ensures
        r@.len() == 0,
{
    Vec::new()
}

pub fn default_allowed_domains() -> (r: Vec<String>)
    ensures
        r@.len() == 0,
{
    Vec::new()
}

pub fn default_sandbox_paths() -> (r: Vec<String>)
    ensures
        r@.len() == 0,
{
    Vec::new()
}

pub fn default_max_ops_per_turn() -> (r: usize)
    ensures
        r == 50,
{
    50
}

pub fn default_max_output_bytes() -> (r: usize)
    ensures
        r == 1024 * 1024,
{
    1024 * 1024
}

pub fn default_exec_timeout_secs() -> (r: u64)
    ensures
        r == 60,
{
    60
}

pub fn default_true() -> (r: bool)
    ensures
        r,
{
    true
}

/// The configuration that `SecurityConfig::default` gives.
pub open spec fn is_default_config(c: SecurityConfig) -> bool {
    &&& c.mode == SecurityMode::Confirm
    &&& views(c.blocked_commands@) == seq!["rm -rf /"@, "mkfs"@, ":(){ :|:& };:"@]
    &&& views(c.blocked_paths@) == seq!["/etc"@, "/boot"@, "/sys"@, "/proc"@]
    &&& views(c.blocked_functions@) == seq!["exit"@, "setenv"@]
    &&& c.require_confirm_rm
    &&& c.require_confirm_sudo
    &&& c.require_confirm_write_system
    &&& c.require_confirm_eval
    &&& c.allow_network
    &&& c.blocked_domains@.len() == 0
    &&& c.allowed_domains@.len() == 0
    &&& c.sandbox_paths@.len() == 0
    &&& c.max_ops_per_turn == 50
    &&& c.max_output_bytes == 1024 * 1024
    &&& c.exec_timeout_secs == 60
    &&& c.audit_log is None
}

impl Default for SecurityConfig {
    fn default() -> (r: Self)
        ensures
            is_default_config(r),
    {
        SecurityConfig {
            mode: SecurityMode::Confirm,
            blocked_commands: default_blocked_commands(),
            blocked_paths: default_blocked_paths(),
            blocked_functions: default_blocked_functions(),
            require_confirm_rm: true,
            require_confirm_sudo: true,
            require_confirm_write_system: true,
            require_confirm_eval: true,
            allow_network: true,
            blocked_domains: default_blocked_domains(),
            allowed_domains: default_allowed_domains(),
            sandbox_paths: default_sandbox_paths(),
            max_ops_per_turn: default_max_ops_per_turn(),
            max_output_bytes: default_max_output_bytes(),
            exec_timeout_secs: default_exec_timeout_secs(),
            audit_log: None,
        }
    }
}

// ---------------------------------------------------------------------------
// The patterns built from the configuration
// ---------------------------------------------------------------------------
#[derive(Debug, Clone, Copy, PartialEq, Eq, Structural)]
pub enum PatternKind {
    /// `(?i)` and the escaped text: found anywhere, in any letter case.
    Command,
    /// `^` and the escaped text: found at the start.
    Path,
    /// `\(\s*`, the escaped name and `\b`: a call of the function.
    Function,
    /// The escaped text alone: found anywhere.
    Domain,
}

pub open spec fn pattern_text(kind: PatternKind, item: Seq<char>) -> Seq<char> {
    match kind {
        PatternKind::Command => "(?i)"@ + regex_escape_of(item),
        PatternKind::Path => "^"@ + regex_escape_of(item),
        PatternKind::Function => "\\(\\s*"@ + regex_escape_of(item) + "\\b"@,
        PatternKind::Domain => regex_escape_of(item),
    }
}

pub open spec fn pattern_texts(kind: PatternKind, items: Seq<Seq<char>>) -> Seq<Seq<char>> {
    items.map_values(|item: Seq<char>| pattern_text(kind, item))
}

/// The sources of the patterns the policy keeps for `items`: those that
/// compile, in order.
pub open spec fn patterns_of(kind: PatternKind, items: Seq<String>) -> Seq<Seq<char>> {
    compiled_texts(pattern_texts(kind, views(items)))
}

fn pattern_of(kind: PatternKind, item: &str) -> (r: String)
    ensures
        r@ == pattern_text(kind, item@),
{
    let esc = regex_escape(item);
    match kind {
        PatternKind::Command => concat("(?i)", esc.as_str()),
        PatternKind::Path => concat("^", esc.as_str()),
        PatternKind::Function => {
            let mut r = concat("\\(\\s*", esc.as_str());
            r.append("\\b");
            r
        },
        PatternKind::Domain => esc,
    }
}

fn compile_patterns(kind: PatternKind, items: &Vec<String>) -> (r: Vec<Pattern>)
    ensures
        sources(r@) == patterns_of(kind, items@),
{
    let ghost iv = views(items@);
    let mut texts: Vec<String> = Vec::new();
    let mut i: usize = 0;
    while i < items.len()
        invariant
            i <= items@.len(),
            iv == views(items@),
            views(texts@) == pattern_texts(kind, iv.take(i as int)),
        decreases items.len() - i,
    {
        let t = pattern_of(kind, items[i].as_str());
        let ghost old_texts = texts@;
        texts.push(t);
        proof {
            assert(views(texts@) =~= views(old_texts).push(t@));
            assert(iv.take(i + 1) =~= iv.take(i as int).push(iv[i as int]));
            assert(pattern_texts(kind, iv.take(i + 1)) =~= pattern_texts(kind, iv.take(i as int)).push(
                pattern_text(kind, iv[i as int]),
            ));
        }
        i = i + 1;
    }
    assert(iv.take(items@.len() as int) =~= iv);
    compile_all(texts)
}

// ---------------------------------------------------------------------------
// Text tests of the checks
// ---------------------------------------------------------------------------
/// `text` mentions `word`, ignoring letter case.
pub open spec fn mentions(text: Seq<char>, word: Seq<char>) -> bool {
    contains(lowercase(text), lowercase(word))
}

pub fn re_contains(text: &str, pattern: &str) -> (r: bool)
    ensures
        r == mentions(text@, pattern@),
{
    let t = chars_of(to_lowercase(text).as_str());
    let p = to_lowercase(pattern);
    contains_str(&t, p.as_str())
}

/// Code that calls a function that writes to the file system.
pub open spec fn is_write_code(code: Seq<char>) -> bool {
    let l = lowercase(code);
    ||| contains(l, "(write"@)
    ||| contains(l, "(write-range"@)
    ||| contains(l, "(append"@)
    ||| contains(l, "(insert-at"@)
    ||| contains(l, "(remove-range"@)
    ||| contains(l, "(rm"@)
    ||| contains(l, "(delete"@)
    ||| contains(l, "(mkdir"@)
    ||| contains(l, "(cp"@)
    ||| contains(l, "(copy"@)
    ||| contains(l, "(mv"@)
    ||| contains(l, "(move"@)
    ||| contains(l, "(touch"@)
}

pub fn is_write_op(code: &str) -> (r: bool)
    ensures
        r == is_write_code(code@),
{
    let l = chars_of(to_lowercase(code).as_str());
    contains_str(&l, "(write") || contains_str(&l, "(write-range") || contains_str(&l, "(append")
        || contains_str(&l, "(insert-at") || contains_str(&l, "(remove-range") || contains_str(
        &l,
        "(rm",
    ) || contains_str(&l, "(delete") || contains_str(&l, "(mkdir") || contains_str(&l, "(cp")
        || contains_str(&l, "(copy") || contains_str(&l, "(mv") || contains_str(&l, "(move")
        || contains_str(&l, "(touch")
}

/// The pattern whose first group is the first quoted text of a piece of
/// code.
pub open spec fn quoted_text_pattern() -> Seq<char> {
    "\"([^\"]+)\""@
}

/// The pattern whose first group is the first quoted `http://` or
/// `https://` address of a piece of code.
pub open spec fn quoted_url_pattern() -> Seq<char> {
    "\"(https?://[^\"]+)\""@
}

/// The first group that the regex of `pattern` captures in `code`, where
/// the pattern compiles.
pub open spec fn captured(pattern: Seq<char>, code: Seq<char>) -> Option<Seq<char>> {
    if regex_compiles(pattern) {
        regex_group(pattern, code)
    } else {
        None
    }
}

pub open spec fn quoted_path(code: Seq<char>) -> Option<Seq<char>> {
    captured(quoted_text_pattern(), code)
}

pub open spec fn quoted_url(code: Seq<char>) -> Option<Seq<char>> {
    captured(quoted_url_pattern(), code)
}

fn capture(pattern: &str, code: &str) -> (r: Option<String>)
    ensures
        match r {
            Some(g) => captured(pattern@, code@) == Some(g@),
            None => captured(pattern@, code@) is None,
        },
{
    match Pattern::compile(owned(pattern)) {
        Some(p) => p.first_group(code),
        None => None,
    }
}

/// The first quoted text in `code`, if any.
pub fn extract_path(code: &str) -> (r: Option<String>)
    ensures
        match r {
            Some(p) => quoted_path(code@) == Some(p@),
            None => quoted_path(code@) is None,
        },
{
    capture("\"([^\"]+)\"", code)
}

/// The first quoted `http://` or `https://` address in `code`, if any.
pub fn extract_url(code: &str) -> (r: Option<String>)
    ensures
        match r {
            Some(u) => quoted_url(code@) == Some(u@),
            None => quoted_url(code@) is None,
        },
{
    capture("\"(https?://[^\"]+)\"", code)
}

// ---------------------------------------------------------------------------
// The verdicts
// ---------------------------------------------------------------------------
pub open spec fn rate_limit_message(max: nat) -> Seq<char> {
    "security: rate limit exceeded (max "@ + decimal(max) + " ops per turn)"@
}

/// What `check_code` answers to `code` under configuration `c` after `ops`
/// earlier operations of the turn.
pub open spec fn code_verdict(c: SecurityConfig, ops: nat, code: Seq<char>) -> Result<
    (),
    Seq<char>,
> {
    let cmd = first_match(patterns_of(PatternKind::Command, c.blocked_commands@), code);
    let func = first_match(patterns_of(PatternKind::Function, c.blocked_functions@), code);
    let dom = first_match(patterns_of(PatternKind::Domain, c.blocked_domains@), code);
    if c.mode == SecurityMode::Off {
        Ok(())
    } else if ops >= c.max_ops_per_turn {
        Err(rate_limit_message(c.max_ops_per_turn as nat))
    } else if cmd is Some {
        Err("security: blocked command pattern '"@ + cmd->0 + "'"@)
    } else if c.mode == SecurityMode::Strict && func is Some {
        Err("security: blocked function '"@ + trim(func->0) + "'"@)
    } else if c.mode == SecurityMode::Strict && c.require_confirm_sudo && mentions(code, "sudo"@) {
        Err("security: sudo blocked in strict mode"@)
    } else if c.mode == SecurityMode::Strict && c.require_confirm_eval && mentions(code, "(eval "@) {
        Err("security: eval blocked in strict mode"@)
    } else if !c.allow_network && mentions(code, "http"@) {
        Err("security: network access disabled"@)
    } else if c.blocked_domains@.len() > 0 && dom is Some {
        Err("security: blocked domain '"@ + dom->0 + "'"@)
    } else if c.allowed_domains@.len() > 0 && quoted_url(code) is Some && !any_match(
        patterns_of(PatternKind::Domain, c.allowed_domains@),
        quoted_url(code)->0,
    ) {
        Err("security: domain not in allowlist: "@ + quoted_url(code)->0)
    } else {
        Ok(())
    }
}

/// The count of operations after one more `check_code` (the counter wraps
/// as an atomic `fetch_add` does).
pub open spec fn counted(c: SecurityConfig, ops: nat) -> nat {
    if c.mode == SecurityMode::Off {
        ops
    } else if ops >= usize::MAX {
        0
    } else {
        ops + 1
    }
}

pub open spec fn reason_if(b: bool, reason: Seq<char>) -> Seq<Seq<char>> {
    if b {
        seq![reason]
    } else {
        seq![]
    }
}

/// The sandbox reason: a write outside every sandbox path.
pub open spec fn sandbox_reasons(c: SecurityConfig, code: Seq<char>) -> Seq<Seq<char>> {
    if c.sandbox_paths@.len() > 0 && is_write_code(code) && quoted_path(code) is Some && !any_match(
        patterns_of(PatternKind::Path, c.sandbox_paths@),
        quoted_path(code)->0,
    ) {
        seq!["path outside sandbox: "@ + quoted_path(code)->0]
    } else {
        seq![]
    }
}

/// Why `code` needs the user's confirmation under `c`, in order; empty when
/// it does not.
pub open spec fn danger_reasons(c: SecurityConfig, code: Seq<char>) -> Seq<Seq<char>> {
    if c.mode == SecurityMode::Off {
        seq![]
    } else {
        reason_if(c.require_confirm_rm && mentions(code, "rm "@), "file deletion (rm)"@)
            + reason_if(c.require_confirm_sudo && mentions(code, "sudo"@), "sudo"@) + reason_if(
            c.require_confirm_eval && mentions(code, "(eval "@),
            "eval"@,
        ) + reason_if(
            c.require_confirm_write_system && any_match(
                patterns_of(PatternKind::Path, c.blocked_paths@),
                code,
            ),
            "writing to system path"@,
        ) + reason_if(
            c.mode == SecurityMode::Confirm && any_match(
                patterns_of(PatternKind::Function, c.blocked_functions@),
                code,
            ),
            "blocked function"@,
        ) + sandbox_reasons(c, code)
    }
}

/// The user's answer allows the operation: `y` or `yes`, ignoring case and
/// surrounding whitespace.
pub open spec fn answer_allows(answer: Seq<char>) -> bool {
    lowercase(trim(answer)) == "y"@ || lowercase(trim(answer)) == "yes"@
}

pub open spec fn result_view(r: Result<(), String>) -> Result<(), Seq<char>> {
    match r {
        Ok(()) => Ok(()),
        Err(e) => Err(e@),
    }
}

pub open spec fn truncation_note(len: nat, max: nat) -> Seq<char> {
    "\n\n[output truncated: "@ + decimal(len) + " bytes limited to "@ + decimal(max) + " bytes]"@
}

/// What `check_output` makes of `output` with the byte limit `max`.
pub open spec fn bounded_output(output: Seq<char>, max: nat) -> Seq<char> {
    let bytes = encode_utf8(output);
    if bytes.len() > max {
        decode_utf8(bytes.subrange(0, max as int)) + truncation_note(bytes.len(), max)
    } else {
        output
    }
}

/// The audit log line for a decision on `code`.
pub open spec fn audit_line(secs: nat, allowed: bool, reason: Seq<char>, code: Seq<char>) -> Seq<
    char,
> {
    "["@ + decimal(secs) + "] "@ + (if allowed {
        "ALLOWED"@
    } else {
        "BLOCKED"@
    }) + " | "@ + reason + " | "@ + trim(code) + "\n"@
}

// ---------------------------------------------------------------------------
// The policy
// ---------------------------------------------------------------------------
#[derive(Debug)]
pub struct SecurityPolicy {
    config: SecurityConfig,
    blocked_cmd_re: Vec<Pattern>,
    blocked_path_re: Vec<Pattern>,
    blocked_func_re: Vec<Pattern>,
    blocked_domain_re: Vec<Pattern>,
    allowed_domain_re: Vec<Pattern>,
    sandbox_re: Vec<Pattern>,
    op_count: usize,
}

impl SecurityPolicy {
    #[verifier::type_invariant]
    spec fn patterns_match_config(self) -> bool {
        &&& sources(self.blocked_cmd_re@) == patterns_of(
            PatternKind::Command,
            self.config.blocked_commands@,
        )
        &&& sources(self.blocked_path_re@) == patterns_of(
            PatternKind::Path,
            self.config.blocked_paths@,
        )
        &&& sources(self.blocked_func_re@) == patterns_of(
            PatternKind::Function,
            self.config.blocked_functions@,
        )
        &&& sources(self.blocked_domain_re@) == patterns_of(
            PatternKind::Domain,
            self.config.blocked_domains@,
        )
        &&& sources(self.allowed_domain_re@) == patterns_of(
            PatternKind::Domain,
            self.config.allowed_domains@,
        )
        &&& sources(self.sandbox_re@) == patterns_of(PatternKind::Path, self.config.sandbox_paths@)
    }

    /// The configuration the policy was made with.
    pub closed spec fn config(&self) -> SecurityConfig {
        self.config
    }

    /// The operations checked since the turn began.
    pub closed spec fn op_count(&self) -> nat {
        self.op_count as nat
    }

    pub fn new(config: SecurityConfig) -> (r: Self)
        ensures
            r.config() == config,
            r.op_count() == 0,
    {
        let blocked_cmd_re = compile_patterns(PatternKind::Command, &config.blocked_commands);
        let blocked_path_re = compile_patterns(PatternKind::Path, &config.blocked_paths);
        let blocked_func_re = compile_patterns(PatternKind::Function, &config.blocked_functions);
        let blocked_domain_re = compile_patterns(PatternKind::Domain, &config.blocked_domains);
        let allowed_domain_re = compile_patterns(PatternKind::Domain, &config.allowed_domains);
        let sandbox_re = compile_patterns(PatternKind::Path, &config.sandbox_paths);
        SecurityPolicy {
            config,
            blocked_cmd_re,
            blocked_path_re,
            blocked_func_re,
            blocked_domain_re,
            allowed_domain_re,
            sandbox_re,
            op_count: 0,
        }
    }

    /// The configuration the policy was made with.
    pub fn security_config(&self) -> (r: &SecurityConfig)
        ensures
            *r == self.config(),
    {
        &self.config
    }

    /// Where audit entries go, if anywhere.
    pub fn audit_path(&self) -> (r: Option<String>)
        ensures
            r == self.config().audit_log,
    {
        self.config.audit_log.clone()
    }

    /// Begins a turn: the operation count starts again from zero.
    pub fn start_turn(&mut self)
        ensures
            final(self).config() == old(self).config(),
            final(self).op_count() == 0,
        no_unwind
    {
        proof {
            use_type_invariant(&*self);
        }
        self.op_count = 0;
    }

    /// Pre-flight check of tool code. Counts the operation, unless the
    /// policy is off.
    pub fn check_code(&mut self, code: &str) -> (r: Result<(), String>)
        ensures
            result_view(r) == code_verdict(old(self).config(), old(self).op_count(), code@),
            final(self).config() == old(self).config(),
            final(self).op_count() == counted(old(self).config(), old(self).op_count()),
    {
        proof {
            use_type_invariant(&*self);
        }
        if self.config.mode == SecurityMode::Off {
            return Ok(());
        }
        let ops = self.op_count;
        if ops == usize::MAX {
            self.op_count = 0;
        } else {
            self.op_count = ops + 1;
        }
        let max_ops = self.config.max_ops_per_turn;
        if ops >= max_ops {
            let mut e = owned("security: rate limit exceeded (max ");
            push_decimal(&mut e, max_ops as u64);
            e.append(" ops per turn)");
            return Err(e);
        }
        match first_match_index(&self.blocked_cmd_re, code) {
            Some(i) => {
                let mut e = concat(
                    "security: blocked command pattern '",
                    self.blocked_cmd_re[i].as_str(),
                );
                e.append("'");
                return Err(e);
            },
            None => {},
        }
        if self.config.mode == SecurityMode::Strict {
            match first_match_index(&self.blocked_func_re, code) {
                Some(i) => {
                    let name = trim_str(self.blocked_func_re[i].as_str());
                    let mut e = concat("security: blocked function '", name.as_str());
                    e.append("'");
                    return Err(e);
                },
                None => {},
            }
            if self.config.require_confirm_sudo && re_contains(code, "sudo") {
                return Err(owned("security: sudo blocked in strict mode"));
            }
            if self.config.require_confirm_eval && re_contains(code, "(eval ") {
                return Err(owned("security: eval blocked in strict mode"));
            }
        }
        if !self.config.allow_network && re_contains(code, "http") {
            return Err(owned("security: network access disabled"));
        }
        if self.config.blocked_domains.len() > 0 {
            match first_match_index(&self.blocked_domain_re, code) {
                Some(i) => {
                    let mut e = concat(
                        "security: blocked domain '",
                        self.blocked_domain_re[i].as_str(),
                    );
                    e.append("'");
                    return Err(e);
                },
                None => {},
            }
        }
        if self.config.allowed_domains.len() > 0 {
            match extract_url(code) {
                Some(url) => {
                    let allowed = first_match_index(&self.allowed_domain_re, url.as_str());
                    if allowed.is_none() {
                        return Err(concat("security: domain not in allowlist: ", url.as_str()));
                    }
                },
                None => {},
            }
        }
        Ok(())
    }

    /// Why `code` needs the user's confirmation; empty when it does not.
    pub fn dangerous_reasons(&self, code: &str) -> (r: Vec<String>)
        ensures
            views(r@) == danger_reasons(self.config(), code@),
    {
        proof {
            use_type_invariant(self);
        }
        let mut reasons: Vec<String> = Vec::new();
        if self.config.mode == SecurityMode::Off {
            assert(views(reasons@) =~= danger_reasons(self.config(), code@));
            return reasons;
        }
        let c = &self.config;
        let ghost code_v = code@;
        let ghost r1 = reason_if(c.require_confirm_rm && mentions(code_v, "rm "@), "file deletion (rm)"@);
        let ghost r2 = reason_if(c.require_confirm_sudo && mentions(code_v, "sudo"@), "sudo"@);
        let ghost r3 = reason_if(c.require_confirm_eval && mentions(code_v, "(eval "@), "eval"@);
        let ghost r4 = reason_if(
            c.require_confirm_write_system && any_match(
                patterns_of(PatternKind::Path, c.blocked_paths@),
                code_v,
            ),
            "writing to system path"@,
        );
        let ghost r5 = reason_if(
            c.mode == SecurityMode::Confirm && any_match(
                patterns_of(PatternKind::Function, c.blocked_functions@),
                code_v,
            ),
            "blocked function"@,
        );
        if c.require_confirm_rm && re_contains(code, "rm ") {
            reasons.push(owned("file deletion (rm)"));
        }
        assert(views(reasons@) =~= r1);
        if c.require_confirm_sudo && re_contains(code, "sudo") {
            reasons.push(owned("sudo"));
        }
        assert(views(reasons@) =~= r1 + r2);
        if c.require_confirm_eval && re_contains(code, "(eval ") {
            reasons.push(owned("eval"));
        }
        assert(views(reasons@) =~= r1 + r2 + r3);
        if c.require_confirm_write_system {
            if first_match_index(&self.blocked_path_re, code).is_some() {
                reasons.push(owned("writing to system path"));
            }
        }
        assert(views(reasons@) =~= r1 + r2 + r3 + r4);
        if c.mode == SecurityMode::Confirm {
            if first_match_index(&self.blocked_func_re, code).is_some() {
                reasons.push(owned("blocked function"));
            }
        }
        assert(views(reasons@) =~= r1 + r2 + r3 + r4 + r5);
        if c.sandbox_paths.len() > 0 && is_write_op(code) {
            match extract_path(code) {
                Some(path) => {
                    if first_match_index(&self.sandbox_re, path.as_str()).is_none() {
                        reasons.push(concat("path outside sandbox: ", path.as_str()));
                    }
                },
                None => {},
            }
        }
        assert(views(reasons@) =~= r1 + r2 + r3 + r4 + r5 + sandbox_reasons(self.config(), code_v));
        reasons
    }

    /// Bounds tool output to the configured number of bytes. The cut must
    /// fall on a character boundary, as slicing a `str` requires.
    pub fn check_output(&self, output: &str) -> (r: String)
        requires
            output.spec_bytes().len() > self.config().max_output_bytes ==> is_char_boundary(
                output.spec_bytes(),
                self.config().max_output_bytes as int,
            ),
        ensures
            r@ == bounded_output(output@, self.config().max_output_bytes as nat),
    {
        let max = self.config.max_output_bytes;
        let len = output.as_bytes().len();
        if len > max {
            let (head, _tail) = output.split_at(max);
            let mut r = head.to_owned();
            proof {
                assert(head.spec_bytes() == encode_utf8(head@));
                encode_utf8_decode_utf8(head@);
                assert(head.spec_bytes() =~= output.spec_bytes().subrange(0, max as int));
                assert(head@ == decode_utf8(encode_utf8(output@).subrange(0, max as int)));
            }
            let ghost h = head@;
            r.append("\n\n[output truncated: ");
            push_decimal(&mut r, len as u64);
            r.append(" bytes limited to ");
            push_decimal(&mut r, max as u64);
            r.append(" bytes]");
            assert(r@ =~= h + truncation_note(len as nat, max as nat));
            r
        } else {
            owned(output)
        }
    }

    pub fn check_exec_timeout(&self) -> (r: u64)
        ensures
            r == self.config().exec_timeout_secs,
    {
        self.config.exec_timeout_secs
    }
}

/// The question put to the user when `reasons` call for a confirmation.
pub fn confirm_prompt(reasons: &Vec<String>, code: &str) -> (r: String)
    ensures
        r@ == "\n\u{26a0} security: "@ + join(views(reasons@), ", "@) + " detected in: "@ + trim(
            code@,
        ) + "\n  allow? [y/N] "@,
{
    let reason = join_strings(reasons, ", ");
    let mut r = concat("\n\u{26a0} security: ", reason.as_str());
    r.append(" detected in: ");
    let t = trim_str(code);
    r.append(t.as_str());
    r.append("\n  allow? [y/N] ");
    r
}

/// The reasons for a confirmation, joined into the one text that the
/// prompt, the refusal and the audit log show.
pub fn joined_reasons(reasons: &Vec<String>) -> (r: String)
    ensures
        r@ == join(views(reasons@), ", "@),
{
    join_strings(reasons, ", ")
}

/// The outcome of the confirmation that `reasons` call for, given the
/// user's `answer`: code with no reason passes without a question.
pub fn confirm_verdict(reasons: &Vec<String>, answer: &str) -> (r: Result<(), String>)
    ensures
        r is Ok <==> (reasons@.len() == 0 || answer_allows(answer@)),
        r matches Err(e) ==> e@ == "security: blocked by user ("@ + join(views(reasons@), ", "@)
            + ")"@,
{
    if reasons.len() == 0 {
        return Ok(());
    }
    let t = trim_str(answer);
    let l = to_lowercase(t.as_str());
    let y = owned("y");
    let yes = owned("yes");
    if l == y || l == yes {
        Ok(())
    } else {
        let reason = joined_reasons(reasons);
        let mut e = concat("security: blocked by user (", reason.as_str());
        e.append(")");
        Err(e)
    }
}

/// The line written to the audit log for a decision, stamped with the
/// given number of seconds since the epoch.
pub fn audit_entry(secs: u64, allowed: bool, reason: &str, code: &str) -> (r: String)
    ensures
        r@ == audit_line(secs as nat, allowed, reason@, code@),
{
    let mut r = owned("[");
    push_decimal(&mut r, secs);
    r.append("] ");
    if allowed {
        r.append("ALLOWED");
    } else {
        r.append("BLOCKED");
    }
    r.append(" | ");
    r.append(reason);
    r.append(" | ");
    let t = trim_str(code);
    r.append(t.as_str());
    r.append("\n");
    r
}

// ---------------------------------------------------------------------------
// Laws of the policy
// ---------------------------------------------------------------------------
/// With the policy off, every piece of code passes the pre-flight check,
/// none needs a confirmation, and nothing is counted.
pub proof fn law_off_permits_everything(c: SecurityConfig, ops: nat, code: Seq<char>)
    requires
        c.mode == SecurityMode::Off,
    ensures
        code_verdict(c, ops, code) == Ok::<(), Seq<char>>(()),
        danger_reasons(c, code).len() == 0,
        counted(c, ops) == ops,
{
}

/// Once a turn has used its allowance of operations, every further check
/// of the turn fails with the rate-limit error, whatever the code.
pub proof fn law_rate_limit(c: SecurityConfig, ops: nat, code: Seq<char>)
    requires
        c.mode != SecurityMode::Off,
        ops >= c.max_ops_per_turn,
    ensures
        code_verdict(c, ops, code) == Err::<(), Seq<char>>(
            rate_limit_message(c.max_ops_per_turn as nat),
        ),
{
}

/// Within its allowance, a turn counts one more operation per check.
pub proof fn law_checks_are_counted(c: SecurityConfig, ops: nat)
    requires
        c.mode != SecurityMode::Off,
        ops < usize::MAX,
    ensures
        counted(c, ops) == ops + 1,
{
}

/// The answers to the checks of `codes`, made one after another by a policy
/// with configuration `c` that has counted `ops` operations: what successive
/// calls of `check_code` return.
pub open spec fn turn_verdicts(c: SecurityConfig, ops: nat, codes: Seq<Seq<char>>) -> Seq<
    Result<(), Seq<char>>,
>
    decreases codes.len(),
{
    if codes.len() == 0 {
        seq![]
    } else {
        seq![code_verdict(c, ops, codes[0])] + turn_verdicts(c, counted(c, ops), codes.drop_first())
    }
}

/// How many of `verdicts` let the code through.
pub open spec fn passed(verdicts: Seq<Result<(), Seq<char>>>) -> nat
    decreases verdicts.len(),
{
    if verdicts.len() == 0 {
        0
    } else {
        (if verdicts[0] is Ok {
            1nat
        } else {
            0nat
        }) + passed(verdicts.drop_first())
    }
}

proof fn lemma_turn_verdicts(c: SecurityConfig, ops: nat, codes: Seq<Seq<char>>)
    requires
        c.mode != SecurityMode::Off,
        ops + codes.len() <= usize::MAX,
    ensures
        turn_verdicts(c, ops, codes).len() == codes.len(),
        forall|i: int|
            0 <= i < codes.len() ==> turn_verdicts(c, ops, codes)[i] == code_verdict(
                c,
                (ops + i) as nat,
                codes[i],
            ),
        passed(turn_verdicts(c, ops, codes)) <= (if ops >= c.max_ops_per_turn {
            0
        } else {
            c.max_ops_per_turn - ops
        }),
    decreases codes.len(),
{
    if codes.len() > 0 {
        let rest = codes.drop_first();
        lemma_turn_verdicts(c, ops + 1, rest);
        assert(counted(c, ops) == ops + 1);
        let vs = turn_verdicts(c, ops, codes);
        let tail = turn_verdicts(c, ops + 1, rest);
        assert(vs =~= seq![code_verdict(c, ops, codes[0])] + tail);
        assert(vs.drop_first() =~= tail);
        assert forall|i: int| 0 <= i < codes.len() implies vs[i] == code_verdict(
            c,
            (ops + i) as nat,
            codes[i],
        ) by {
            if i > 0 {
                assert(vs[i] == tail[i - 1]);
                assert(rest[i - 1] == codes[i]);
            }
        }
    }
}

/// Within one turn (the checks after `SecurityPolicy::new` or `start_turn`,
/// both of which leave no operation counted), at most `max_ops_per_turn`
/// checks let code through, and every check after the first
/// `max_ops_per_turn` fails with the rate-limit error, whatever its code.
pub proof fn law_turn_allowance(c: SecurityConfig, codes: Seq<Seq<char>>)
    requires
        c.mode != SecurityMode::Off,
        codes.len() <= usize::MAX,
    ensures
        passed(turn_verdicts(c, 0, codes)) <= c.max_ops_per_turn,
        forall|i: int|
            c.max_ops_per_turn <= i < codes.len() ==> turn_verdicts(c, 0, codes)[i] == Err::<
                (),
                Seq<char>,
            >(rate_limit_message(c.max_ops_per_turn as nat)),
{
    lemma_turn_verdicts(c, 0, codes);
}

/// A new turn starts the count again: each of the first `max_ops_per_turn`
/// checks after `start_turn` is answered as the first check of a turn is,
/// so none of them is refused for the rate.
pub proof fn law_turn_restarts(c: SecurityConfig, codes: Seq<Seq<char>>)
    requires
        c.mode != SecurityMode::Off,
        codes.len() <= usize::MAX,
    ensures
        forall|i: int|
            0 <= i < codes.len() && i < c.max_ops_per_turn ==> turn_verdicts(c, 0, codes)[i]
                == code_verdict(c, 0, codes[i]),
{
    lemma_turn_verdicts(c, 0, codes);
}

/// Code in which a blocked command pattern finds a match never passes the
/// pre-flight check while the policy is on.
pub proof fn law_blocked_command_never_passes(
    c: SecurityConfig,
    ops: nat,
    code: Seq<char>,
    pattern: Seq<char>,
)
    requires
        c.mode != SecurityMode::Off,
        patterns_of(PatternKind::Command, c.blocked_commands@).contains(pattern),
        regex_finds(pattern, code),
    ensures
        code_verdict(c, ops, code) is Err,
{
    lemma_first_match_found(patterns_of(PatternKind::Command, c.blocked_commands@), code, pattern);
}

/// Some pattern of `srcs` that finds a match makes `first_match` find one.
pub proof fn lemma_first_match_found(srcs: Seq<Seq<char>>, text: Seq<char>, p: Seq<char>)
    requires
        srcs.contains(p),
        regex_finds(p, text),
    ensures
        first_match(srcs, text) is Some,
    decreases srcs.len(),
{
    if !regex_finds(srcs[0], text) {
        let k = choose|k: int| 0 <= k < srcs.len() && srcs[k] == p;
        assert(k != 0);
        assert(srcs.drop_first()[k - 1] == p);
        lemma_first_match_found(srcs.drop_first(), text, p);
    }
}

/// A configured item whose pattern compiles is among the patterns the
/// policy keeps for it.
proof fn lemma_item_pattern_kept(kind: PatternKind, items: Seq<String>, k: int)
    requires
        0 <= k < items.len(),
        regex_compiles(pattern_text(kind, items[k]@)),
    ensures
        patterns_of(kind, items).contains(pattern_text(kind, items[k]@)),
{
    let texts = pattern_texts(kind, views(items));
    assert(texts[k] == pattern_text(kind, items[k]@));
    lemma_compiled_keeps(texts, k);
}

proof fn lemma_compiled_keeps(texts: Seq<Seq<char>>, k: int)
    requires
        0 <= k < texts.len(),
        regex_compiles(texts[k]),
    ensures
        compiled_texts(texts).contains(texts[k]),
    decreases texts.len(),
{
    if k == texts.len() - 1 {
        assert(compiled_texts(texts) == compiled_texts(texts.drop_last()).push(texts.last()));
        assert(compiled_texts(texts).last() == texts[k]);
    } else {
        assert(texts.drop_last()[k] == texts[k]);
        lemma_compiled_keeps(texts.drop_last(), k);
        let prev = compiled_texts(texts.drop_last());
        let j = choose|j: int| 0 <= j < prev.len() && prev[j] == texts[k];
        if regex_compiles(texts.last()) {
            assert(compiled_texts(texts) == prev.push(texts.last()));
            assert(compiled_texts(texts)[j] == texts[k]);
        }
    }
}

/// Code in which a blocked domain is found anywhere (not only in a quoted
/// address) never passes the pre-flight check while the policy is on.
pub proof fn law_blocked_domain_never_passes(
    c: SecurityConfig,
    ops: nat,
    code: Seq<char>,
    k: int,
)
    requires
        c.mode != SecurityMode::Off,
        0 <= k < c.blocked_domains@.len(),
        regex_compiles(regex_escape_of(c.blocked_domains@[k]@)),
        regex_finds(regex_escape_of(c.blocked_domains@[k]@), code),
    ensures
        code_verdict(c, ops, code) is Err,
{
    let p = regex_escape_of(c.blocked_domains@[k]@);
    assert(pattern_text(PatternKind::Domain, c.blocked_domains@[k]@) == p);
    lemma_item_pattern_kept(PatternKind::Domain, c.blocked_domains@, k);
    lemma_first_match_found(patterns_of(PatternKind::Domain, c.blocked_domains@), code, p);
}

/// A call of a function that writes to the file system, with a first quoted
/// path that no sandbox path covers, makes the policy ask the user where
/// sandbox paths are set: the reasons include that path.
pub proof fn law_writes_outside_sandbox_ask(c: SecurityConfig, code: Seq<char>, call: Seq<char>, path: Seq<char>)
    requires
        c.mode != SecurityMode::Off,
        c.sandbox_paths@.len() > 0,
        seq![
            "(write"@, "(write-range"@, "(append"@, "(insert-at"@, "(remove-range"@, "(rm"@,
            "(delete"@, "(mkdir"@, "(cp"@, "(copy"@, "(mv"@, "(move"@, "(touch"@,
        ].contains(call),
        contains(lowercase(code), call),
        quoted_path(code) == Some(path),
        !any_match(patterns_of(PatternKind::Path, c.sandbox_paths@), path),
    ensures
        danger_reasons(c, code).contains("path outside sandbox: "@ + path),
{
    let calls = seq![
        "(write"@, "(write-range"@, "(append"@, "(insert-at"@, "(remove-range"@, "(rm"@,
        "(delete"@, "(mkdir"@, "(cp"@, "(copy"@, "(mv"@, "(move"@, "(touch"@,
    ];
    let j = choose|j: int| 0 <= j < calls.len() && calls[j] == call;
    assert(is_write_code(code));
    let r = danger_reasons(c, code);
    assert(r.last() == "path outside sandbox: "@ + path);
}

/// The strict mode is at least as strict as the confirm mode: code that
/// strict mode lets through, confirm mode lets through too.
pub proof fn law_strict_narrows_confirm(c: SecurityConfig, d: SecurityConfig, ops: nat, code: Seq<char>)
    requires
        c.mode == SecurityMode::Strict,
        d.mode == SecurityMode::Confirm,
        views(d.blocked_commands@) == views(c.blocked_commands@),
        views(d.blocked_functions@) == views(c.blocked_functions@),
        views(d.blocked_domains@) == views(c.blocked_domains@),
        views(d.allowed_domains@) == views(c.allowed_domains@),
        d.require_confirm_sudo == c.require_confirm_sudo,
        d.require_confirm_eval == c.require_confirm_eval,
        d.allow_network == c.allow_network,
        d.max_ops_per_turn == c.max_ops_per_turn,
        code_verdict(c, ops, code) is Ok,
    ensures
        code_verdict(d, ops, code) is Ok,
{
    assert(views(d.blocked_domains@).len() == d.blocked_domains@.len());
    assert(views(c.blocked_domains@).len() == c.blocked_domains@.len());
    assert(views(d.allowed_domains@).len() == d.allowed_domains@.len());
    assert(views(c.allowed_domains@).len() == c.allowed_domains@.len());
}

/// A call of a blocked function never runs unchecked while the policy is
/// on: strict mode refuses it at the pre-flight check, confirm mode asks the
/// user first.
pub proof fn law_blocked_functions_are_guarded(c: SecurityConfig, ops: nat, code: Seq<char>)
    requires
        c.mode != SecurityMode::Off,
        any_match(patterns_of(PatternKind::Function, c.blocked_functions@), code),
    ensures
        code_verdict(c, ops, code) is Err || danger_reasons(c, code).len() > 0,
{
}

/// Code that mentions `sudo`, or evaluates code, never runs unchecked where
/// the configuration asks for it: strict mode refuses it, confirm mode asks
/// the user first.
pub proof fn law_sudo_and_eval_are_guarded(c: SecurityConfig, ops: nat, code: Seq<char>)
    requires
        c.mode != SecurityMode::Off,
        (c.require_confirm_sudo && mentions(code, "sudo"@)) || (c.require_confirm_eval
            && mentions(code, "(eval "@)),
    ensures
        code_verdict(c, ops, code) is Err || danger_reasons(c, code).len() > 0,
{
}

/// Where the configuration turns network access off, code that mentions
/// `http` never passes; where it lists allowed domains, a quoted address
/// that none of them matches never passes.
pub proof fn law_network_rules(c: SecurityConfig, ops: nat, code: Seq<char>)
    requires
        c.mode != SecurityMode::Off,
    ensures
        !c.allow_network && mentions(code, "http"@) ==> code_verdict(c, ops, code) is Err,
        c.allowed_domains@.len() > 0 && quoted_url(code) is Some && !any_match(
            patterns_of(PatternKind::Domain, c.allowed_domains@),
            quoted_url(code)->0,
        ) ==> code_verdict(c, ops, code) is Err,
{
}

proof fn lemma_no_match(srcs: Seq<Seq<char>>, text: Seq<char>)
    requires
        forall|i: int| 0 <= i < srcs.len() ==> !regex_finds(#[trigger] srcs[i], text),
    ensures
        first_match(srcs, text) is None,
        !any_match(srcs, text),
    decreases srcs.len(),
{
    if srcs.len() > 0 {
        let t = srcs.drop_first();
        assert forall|i: int| 0 <= i < t.len() implies !regex_finds(#[trigger] t[i], text) by {
            assert(t[i] == srcs[i + 1]);
        }
        lemma_no_match(t, text);
        assert(!regex_finds(srcs[0], text));
    }
}

/// Code that none of the refusals concerns passes the pre-flight check:
/// within the turn's allowance, matching no blocked command, in strict mode
/// calling no blocked function and neither using sudo nor evaluating code
/// where those are guarded, mentioning `http` only where the network is
/// allowed, matching no blocked domain, and quoting no address outside the
/// allowed domains.
pub proof fn law_clean_code_passes(c: SecurityConfig, ops: nat, code: Seq<char>)
    requires
        ops < c.max_ops_per_turn,
        forall|i: int|
            0 <= i < patterns_of(PatternKind::Command, c.blocked_commands@).len() ==> !regex_finds(
                #[trigger] patterns_of(PatternKind::Command, c.blocked_commands@)[i],
                code,
            ),
        c.mode == SecurityMode::Strict ==> forall|i: int|
            0 <= i < patterns_of(PatternKind::Function, c.blocked_functions@).len() ==> !regex_finds(
                #[trigger] patterns_of(PatternKind::Function, c.blocked_functions@)[i],
                code,
            ),
        c.mode == SecurityMode::Strict ==> !(c.require_confirm_sudo && mentions(code, "sudo"@)),
        c.mode == SecurityMode::Strict ==> !(c.require_confirm_eval && mentions(code, "(eval "@)),
        c.allow_network || !mentions(code, "http"@),
        forall|i: int|
            0 <= i < patterns_of(PatternKind::Domain, c.blocked_domains@).len() ==> !regex_finds(
                #[trigger] patterns_of(PatternKind::Domain, c.blocked_domains@)[i],
                code,
            ),
        c.allowed_domains@.len() == 0 || quoted_url(code) is None || any_match(
            patterns_of(PatternKind::Domain, c.allowed_domains@),
            quoted_url(code)->0,
        ),
    ensures
        code_verdict(c, ops, code) == Ok::<(), Seq<char>>(()),
{
    lemma_no_match(patterns_of(PatternKind::Command, c.blocked_commands@), code);
    if c.mode == SecurityMode::Strict {
        lemma_no_match(patterns_of(PatternKind::Function, c.blocked_functions@), code);
    }
    lemma_no_match(patterns_of(PatternKind::Domain, c.blocked_domains@), code);
}

/// The reasons to ask the user: deleting with `rm`, `sudo`, evaluating
/// code, and writing to a system path each add their reason where the
/// configuration asks for it; code that none of the reasons concerns needs
/// no confirmation.
pub proof fn law_confirm_reasons(c: SecurityConfig, code: Seq<char>)
    requires
        c.mode != SecurityMode::Off,
    ensures
        c.require_confirm_rm && mentions(code, "rm "@) ==> danger_reasons(c, code).contains(
            "file deletion (rm)"@,
        ),
        c.require_confirm_sudo && mentions(code, "sudo"@) ==> danger_reasons(c, code).contains(
            "sudo"@,
        ),
        c.require_confirm_eval && mentions(code, "(eval "@) ==> danger_reasons(c, code).contains(
            "eval"@,
        ),
        c.require_confirm_write_system && any_match(
            patterns_of(PatternKind::Path, c.blocked_paths@),
            code,
        ) ==> danger_reasons(c, code).contains("writing to system path"@),
        !(c.require_confirm_rm && mentions(code, "rm "@)) && !(c.require_confirm_sudo && mentions(
            code,
            "sudo"@,
        )) && !(c.require_confirm_eval && mentions(code, "(eval "@))
            && !(c.require_confirm_write_system && any_match(
            patterns_of(PatternKind::Path, c.blocked_paths@),
            code,
        )) && !(c.mode == SecurityMode::Confirm && any_match(
            patterns_of(PatternKind::Function, c.blocked_functions@),
            code,
        )) && !(c.sandbox_paths@.len() > 0 && is_write_code(code)) ==> danger_reasons(
            c,
            code,
        ).len() == 0,
{
    let r1 = reason_if(c.require_confirm_rm && mentions(code, "rm "@), "file deletion (rm)"@);
    let r2 = reason_if(c.require_confirm_sudo && mentions(code, "sudo"@), "sudo"@);
    let r3 = reason_if(c.require_confirm_eval && mentions(code, "(eval "@), "eval"@);
    let r4 = reason_if(
        c.require_confirm_write_system && any_match(
            patterns_of(PatternKind::Path, c.blocked_paths@),
            code,
        ),
        "writing to system path"@,
    );
    let r5 = reason_if(
        c.mode == SecurityMode::Confirm && any_match(
            patterns_of(PatternKind::Function, c.blocked_functions@),
            code,
        ),
        "blocked function"@,
    );
    let r = danger_reasons(c, code);
    assert(r == r1 + r2 + r3 + r4 + r5 + sandbox_reasons(c, code));
    if c.require_confirm_rm && mentions(code, "rm "@) {
        assert(r[0] == "file deletion (rm)"@);
    }
    if c.require_confirm_sudo && mentions(code, "sudo"@) {
        assert(r[r1.len() as int] == "sudo"@);
    }
    if c.require_confirm_eval && mentions(code, "(eval "@) {
        assert(r[(r1.len() + r2.len()) as int] == "eval"@);
    }
    if c.require_confirm_write_system && any_match(
        patterns_of(PatternKind::Path, c.blocked_paths@),
        code,
    ) {
        assert(r[(r1.len() + r2.len() + r3.len()) as int] == "writing to system path"@);
    }
}

/// Output within the byte limit passes unchanged.
pub proof fn law_small_output_unchanged(output: Seq<char>, max: nat)
    requires
        encode_utf8(output).len() <= max,
    ensures
        bounded_output(output, max) == output,
{
}

} // verus!
