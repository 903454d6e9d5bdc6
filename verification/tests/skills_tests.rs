use lai::skills::{name_le_exec, sort_skills, JsonSkill, Skill, SkillSource};

fn named(name: &str, description: &str) -> Skill {
    Skill {
        name: name.to_string(),
        description: description.to_string(),
        prompt: String::new(),
        init_code: String::new(),
        commands: Vec::new(),
    }
}

#[test]
fn alisp_header_and_code() {
    let content = "; name: git-tools\n; description: Git operations\n; prompt: You are a git expert.\n\n(defn git-status ()\n  (exec \"git status\"))\n";
    let s = Skill::from_alisp("git", content);
    assert_eq!(s.name, "git-tools");
    assert_eq!(s.description, "Git operations");
    assert_eq!(s.prompt, "You are a git expert.");
    assert_eq!(s.init_code, "(defn git-status ()\n  (exec \"git status\"))");
    assert!(s.commands.is_empty());
}

#[test]
fn alisp_name_defaults_to_stem() {
    let s = Skill::from_alisp("tools", "(defn a () 1)\r\n(defn b () 2)");
    assert_eq!(s.name, "tools");
    assert_eq!(s.description, "");
    assert_eq!(s.init_code, "(defn a () 1)\n(defn b () 2)");
}

#[test]
fn alisp_header_ends_at_bare_comment() {
    let content = "; description: d\n;; a note\n; prompt: p\n(x)";
    let s = Skill::from_alisp("n", content);
    assert_eq!(s.description, "d");
    assert_eq!(s.prompt, "");
    assert_eq!(s.init_code, ";; a note\n; prompt: p\n(x)");
}

#[test]
fn alisp_comment_lines_are_skipped() {
    let content = "; just a comment\n;\n  ; name:  spaced  \n(y)";
    let s = Skill::from_alisp("n", content);
    assert_eq!(s.name, "spaced");
    assert_eq!(s.init_code, "(y)");
}

#[test]
fn json_skill_fields() {
    let fields = JsonSkill {
        name: None,
        description: Some("desc".to_string()),
        prompt: None,
        init: Some("(init)".to_string()),
        commands: Some(vec![("a".to_string(), "(x)".to_string()), ("b".to_string(), "(y)".to_string())]),
    };
    let s = Skill::from_json(Some("tool".to_string()), fields);
    assert_eq!(s.name, "tool");
    assert_eq!(s.description, "desc");
    assert_eq!(s.prompt, "");
    assert_eq!(s.init_code, "(init)\n(defn a () (x))\n(defn b () (y))");
    assert_eq!(s.commands.len(), 2);
}

#[test]
fn json_skill_without_stem() {
    let fields = JsonSkill { name: None, description: None, prompt: None, init: None, commands: None };
    let s = Skill::from_json(None, fields);
    assert_eq!(s.name, "unknown");
    assert_eq!(s.init_code, "");
}

#[test]
fn name_order() {
    assert!(name_le_exec("a", "b"));
    assert!(name_le_exec("ab", "ab"));
    assert!(name_le_exec("ab", "abc"));
    assert!(!name_le_exec("b", "a"));
    assert!(name_le_exec("Z", "a"));
}

#[test]
fn sorting_is_stable_by_name() {
    let skills = vec![named("b", "1"), named("a", "2"), named("b", "3"), named("a", "4")];
    let sorted = sort_skills(skills);
    let got: Vec<(String, String)> =
        sorted.into_iter().map(|s| (s.name, s.description)).collect();
    assert_eq!(
        got,
        vec![
            ("a".to_string(), "2".to_string()),
            ("a".to_string(), "4".to_string()),
            ("b".to_string(), "1".to_string()),
            ("b".to_string(), "3".to_string())
        ]
    );
}

#[test]
fn load_dirs_sorts_each_dir() {
    let dir1 = vec![
        SkillSource::Alisp { stem: "zeta".to_string(), content: "(z)".to_string() },
        SkillSource::Alisp { stem: "alpha".to_string(), content: "(a)".to_string() },
    ];
    let dir2 = vec![SkillSource::Json {
        stem_if_any: Some("beta".to_string()),
        fields: JsonSkill { name: None, description: None, prompt: None, init: None, commands: None },
    }];
    let skills = Skill::load_dirs(vec![dir1, dir2]);
    let names: Vec<String> = skills.iter().map(|s| s.name.clone()).collect();
    assert_eq!(names, vec!["alpha", "zeta", "beta"]);
}

#[test]
fn index_text() {
    let mut git = named("git", "Git ops");
    git.commands = vec![("status".to_string(), "(exec \"git status\")".to_string())];
    let index = Skill::skill_index(&[git, named("web", "")]);
    assert_eq!(
        index,
        "\n## Available Skills\n\n### git\nGit ops\nCommands:\n  - `(status)` \u{2014} see skill docs\n\n### web\n\n"
    );
    assert_eq!(Skill::skill_index(&[]), "");
}

#[test]
fn documented_skill_example() {
    let content = "; name: git\n; description: Git operations\n; prompt: You are a git expert.\n\n(defn git-status ()\n  (exec \"git status\"))\n";
    let s = Skill::from_alisp("git", content);
    assert_eq!(s.name, "git");
    assert_eq!(s.description, "Git operations");
    assert_eq!(s.prompt, "You are a git expert.");
    assert_eq!(s.init_code, "(defn git-status ()\n  (exec \"git status\"))");
}

#[test]
fn index_of_joined_lists() {
    let mut git = named("git", "Git ops");
    git.commands = vec![("status".to_string(), "(a)".to_string())];
    let web = named("web", "Web");
    let a = vec![git.clone()];
    let b = vec![web.clone()];
    let both = vec![git.clone(), web.clone()];
    let header = "\n## Available Skills\n\n";
    let ib = Skill::skill_index(&b);
    assert_eq!(Skill::skill_index(&both), Skill::skill_index(&a) + &ib[header.len()..]);

    let mut other = git.clone();
    other.prompt = "changed".to_string();
    other.init_code = "(changed)".to_string();
    other.commands = vec![("status".to_string(), "(b)".to_string())];
    assert_eq!(Skill::skill_index(&[other]), Skill::skill_index(&a));
}
