use lai::agent::{
    estimate_tokens, extract_alisp_blocks, init_codes, tool_output, turns_exhausted, Agent, InitStep,
    Reply,
};
use lai::memory::MemoryManager;
use lai::config::AgentConfig;
use lai::llm::Role;
use lai::security::SecurityConfig;
use lai::skills::Skill;

fn skill(name: &str, description: &str, prompt: &str) -> Skill {
    Skill {
        name: name.to_string(),
        description: description.to_string(),
        prompt: prompt.to_string(),
        init_code: String::new(),
        commands: Vec::new(),
    }
}

fn agent(max_turns: u32, max_context_tokens: usize, skills: &[Skill], prompt: &str) -> Agent {
    Agent::new(
        AgentConfig { max_turns, max_context_tokens },
        SecurityConfig::default(),
        skills,
        prompt,
    )
}

#[test]
fn token_estimate() {
    assert_eq!(estimate_tokens("abcdefgh"), 2);
    assert_eq!(estimate_tokens("abc"), 0);
    assert_eq!(estimate_tokens("\u{e9}\u{e9}"), 1);
}

#[test]
fn blocks_from_reply() {
    let text = "Text ```alisp\n(+ 1 2)\n``` more ```alisp   ``` end ```alisp (x)";
    assert_eq!(extract_alisp_blocks(text), vec!["(+ 1 2)".to_string()]);
    assert_eq!(
        extract_alisp_blocks("```alisp (a)``````alisp\t(b)\n```"),
        vec!["(a)".to_string(), "(b)".to_string()]
    );
    assert!(extract_alisp_blocks("no code here").is_empty());
}

#[test]
fn system_prompt_from_skills() {
    let skills = vec![skill("git", "Git ops", "Be careful."), skill("web", "", "")];
    let a = agent(20, 8192, &skills, "BASE");
    let msgs = a.messages();
    assert_eq!(msgs.len(), 1);
    assert_eq!(msgs[0].role, Role::System);
    assert_eq!(
        msgs[0].content,
        "BASE\n\nBe careful.\n## Available Skills\n\n### git\nGit ops\n\n### web\n\n"
    );
    assert_eq!(a.loaded_count(), 2);
}

#[test]
fn empty_reply_finishes_with_nothing() {
    let mut a = agent(20, 8192, &[], "sys");
    a.begin_run("hi");
    assert!(a.begin_turn());
    match a.take_response("   \n".to_string()) {
        Reply::Finished(t) => assert_eq!(t, ""),
        Reply::RunTools(_) => panic!("no tools expected"),
    }
    assert_eq!(a.messages().len(), 2);
}

#[test]
fn plain_reply_finishes() {
    let mut a = agent(20, 8192, &[], "sys");
    a.begin_run("hi");
    assert!(a.begin_turn());
    match a.take_response("Hello there".to_string()) {
        Reply::Finished(t) => assert_eq!(t, "Hello there"),
        Reply::RunTools(_) => panic!("no tools expected"),
    }
    let msgs = a.messages();
    assert_eq!(msgs.len(), 3);
    assert_eq!(msgs[2].role, Role::Assistant);
    assert_eq!(msgs[2].content, "Hello there");
}

#[test]
fn code_reply_runs_tools() {
    let mut a = agent(20, 8192, &[], "sys");
    a.begin_run("add");
    assert!(a.begin_turn());
    let blocks = match a.take_response("Sure:\n```alisp\n(+ 1 2)\n```".to_string()) {
        Reply::RunTools(b) => b,
        Reply::Finished(_) => panic!("tools expected"),
    };
    assert_eq!(blocks, vec!["(+ 1 2)".to_string()]);
    let outputs = vec![
        tool_output(&Ok("3".to_string())),
        tool_output(&Err("boom".to_string())),
    ];
    assert!(outputs.iter().all(|o| a.output_fits(o)));
    a.take_tool_outputs(&outputs);
    let msgs = a.messages();
    assert_eq!(msgs.len(), 4);
    assert_eq!(msgs[3].role, Role::Tool);
    assert_eq!(msgs[3].content, "```\n3\n```\n```\nerror: boom\n```\n");
}

#[test]
fn turns_are_bounded() {
    let mut a = agent(2, 8192, &[], "sys");
    a.begin_run("x");
    assert!(a.begin_turn());
    assert!(a.begin_turn());
    assert!(!a.begin_turn());
    assert_eq!(turns_exhausted(), "max turns exceeded");
    a.begin_run("again");
    assert!(a.begin_turn());
}

#[test]
fn early_user_message_is_shortened() {
    let mut a = agent(20, 20, &[], "sys");
    let long = "a".repeat(80);
    assert!(a.run_can_begin(&long));
    a.begin_run(&long);
    assert_eq!(a.messages()[1].content, long);
    let _ = a.take_response("answer!!".to_string());
    assert!(a.run_can_begin("hi"));
    a.begin_run("hi");
    let msgs = a.messages();
    assert_eq!(msgs.len(), 4);
    assert_eq!(msgs[0].content, "sys");
    assert_eq!(msgs[1].role, Role::User);
    assert_eq!(msgs[1].content, "[Earlier message truncated (20 tokens)]");
    assert_eq!(msgs[2].content, "answer!!");
    assert_eq!(msgs[3].content, "hi");
}

#[test]
fn truncation_that_never_ends_is_detected() {
    let mut a = agent(20, 20, &[], &"s".repeat(200));
    a.begin_run("first");
    let _ = a.take_response("reply".to_string());
    assert!(!a.run_can_begin("second"));
}

#[test]
fn refresh_loads_only_new_skills() {
    let first = vec![skill("git", "Git ops", "Be careful.")];
    let mut a = agent(20, 8192, &first, "BASE");
    let both = vec![skill("git", "Git ops", "Be careful."), skill("web", "Fetch", "Use https.")];
    assert_eq!(a.refresh_skills(&both), vec![1]);
    assert_eq!(
        a.messages()[0].content,
        "BASE\n\nBe careful.\n\nUse https.\n## Available Skills\n\n### git\nGit ops\n\n### web\nFetch\n\n"
    );
    assert_eq!(a.loaded_count(), 2);
    let before = a.messages()[0].content.clone();
    assert!(a.refresh_skills(&both).is_empty());
    assert_eq!(a.messages()[0].content, before);
}

#[test]
fn clearing_keeps_the_system_prompt() {
    let mut a = agent(20, 8192, &[], "sys");
    a.begin_run("x");
    let _ = a.take_response("y".to_string());
    a.clear_history();
    assert_eq!(a.messages().len(), 1);
    assert_eq!(a.messages()[0].content, "sys");
}

#[test]
fn tool_output_text() {
    assert_eq!(tool_output(&Ok("v".to_string())), "v");
    assert_eq!(tool_output(&Err("e".to_string())), "error: e");
}

#[test]
fn start_up_code_order() {
    let memory = MemoryManager::with_path("/p/memory.db".to_string());
    let mut a = skill("a", "", "");
    a.init_code = "(init-a)".to_string();
    let b = skill("b", "", "");
    let mut c = skill("c", "", "");
    c.init_code = "(init-c)".to_string();
    let steps = init_codes(&memory, &[a, b, c]);
    assert_eq!(steps.len(), 3);
    match &steps[0] {
        InitStep::Memory(code) => assert_eq!(code, &memory.init_code()),
        other => panic!("unexpected {:?}", other),
    }
    match &steps[1] {
        InitStep::Skill(name, code) => {
            assert_eq!(name, "a");
            assert_eq!(code, "(init-a)");
        }
        other => panic!("unexpected {:?}", other),
    }
    match &steps[2] {
        InitStep::Skill(name, code) => {
            assert_eq!(name, "c");
            assert_eq!(code, "(init-c)");
        }
        other => panic!("unexpected {:?}", other),
    }
}
