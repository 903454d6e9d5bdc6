//! Skills: their header format in `.alisp` files, their assembly from JSON
//! fields, their order within a directory, and the index that the system
//! prompt lists them in.
use crate::text::{
    chars_of, concat, join, lines, lines_of, owned, push_chars, slice_chars, starts_with,
    starts_with_str, string_of, trim, trim_chars, views,
};
use vstd::prelude::*;

verus! {

#[derive(Debug, Clone)]
pub struct Skill {
    pub name: String,
    pub description: String,
    pub prompt: String,
    pub init_code: String,
    pub commands: Vec<(String, String)>,
}

/// The mathematical model of a skill.
pub struct SkillView {
    pub name: Seq<char>,
    pub description: Seq<char>,
    pub prompt: Seq<char>,
    pub init_code: Seq<char>,
    pub commands: Seq<(Seq<char>, Seq<char>)>,
}

pub open spec fn pair_views(v: Seq<(String, String)>) -> Seq<(Seq<char>, Seq<char>)> {
    v.map_values(|p: (String, String)| (p.0@, p.1@))
}

impl View for Skill {
    type V = SkillView;

    open spec fn view(&self) -> SkillView {
        SkillView {
            name: self.name@,
            description: self.description@,
            prompt: self.prompt@,
            init_code: self.init_code@,
            commands: pair_views(self.commands@),
        }
    }
}

pub open spec fn skill_views(v: Seq<Skill>) -> Seq<SkillView> {
    v.map_values(|s: Skill| s@)
}

/// The fields of a JSON skill file, each of them optional. The commands
/// are in the order the JSON object was walked.
#[derive(Debug)]
pub struct JsonSkill {
    pub name: Option<String>,
    pub description: Option<String>,
    pub prompt: Option<String>,
    pub init: Option<String>,
    pub commands: Option<Vec<(String, String)>>,
}

/// One skill file of a directory, read and, for JSON, parsed.
#[derive(Debug)]
pub enum SkillSource {
    /// An `.alisp` file: its file stem and its text.
    Alisp { stem: String, content: String },
    /// A `.json` file: its file stem, where it has one in UTF-8, and its fields.
    Json { stem_if_any: Option<String>, fields: JsonSkill },
}

// ---------------------------------------------------------------------------
// The header of an `.alisp` skill
// ---------------------------------------------------------------------------
/// What the header scan has found so far: name, description, prompt, and
/// the index of the first line of code.
pub struct HeaderScan {
    pub name: Seq<char>,
    pub description: Seq<char>,
    pub prompt: Seq<char>,
    pub code_start: nat,
}

/// A comment line that does not begin with `"; "`: it ends the header.
pub open spec fn is_bare_comment(t: Seq<char>) -> bool {
    starts_with(t, ";"@) && !starts_with(t, "; "@) && t.len() > 1
}

/// A line of code: it ends the header.
pub open spec fn is_code_line(t: Seq<char>) -> bool {
    !starts_with(t, ";"@) && t.len() != 0
}

pub open spec fn after_prefix(t: Seq<char>, p: Seq<char>) -> Seq<char> {
    t.subrange(p.len() as int, t.len() as int)
}

/// The scan of the header lines from line `i` on.
pub open spec fn scan_header(ls: Seq<Seq<char>>, i: int, st: HeaderScan) -> HeaderScan
    decreases ls.len() - i,
{
    if i < 0 || i >= ls.len() {
        st
    } else {
        let t = trim(ls[i]);
        if starts_with(t, "; name:"@) {
            scan_header(
                ls,
                i + 1,
                HeaderScan { name: trim(after_prefix(t, "; name:"@)), code_start: (i + 1) as nat, ..st },
            )
        } else if starts_with(t, "; description:"@) {
            scan_header(
                ls,
                i + 1,
                HeaderScan {
                    description: trim(after_prefix(t, "; description:"@)),
                    code_start: (i + 1) as nat,
                    ..st
                },
            )
        } else if starts_with(t, "; prompt:"@) {
            scan_header(
                ls,
                i + 1,
                HeaderScan {
                    prompt: trim(after_prefix(t, "; prompt:"@)),
                    code_start: (i + 1) as nat,
                    ..st
                },
            )
        } else if is_bare_comment(t) || is_code_line(t) {
            st
        } else {
            scan_header(ls, i + 1, HeaderScan { code_start: (i + 1) as nat, ..st })
        }
    }
}

/// The header of the skill file with stem `stem` and text `content`.
pub open spec fn alisp_header(stem: Seq<char>, content: Seq<char>) -> HeaderScan {
    scan_header(
        lines(content),
        0,
        HeaderScan { name: stem, description: seq![], prompt: seq![], code_start: 0 },
    )
}

/// The skill that an `.alisp` file with stem `stem` and text `content` holds.
pub open spec fn alisp_skill(stem: Seq<char>, content: Seq<char>) -> SkillView {
    let h = alisp_header(stem, content);
    SkillView {
        name: h.name,
        description: h.description,
        prompt: h.prompt,
        init_code: alisp_code(stem, content),
        commands: seq![],
    }
}

/// The skill code: the lines after the header, joined with newlines.
pub open spec fn alisp_code(stem: Seq<char>, content: Seq<char>) -> Seq<char> {
    let ls = lines(content);
    let k = alisp_header(stem, content).code_start;
    join(ls.subrange(if k <= ls.len() { k as int } else { ls.len() as int }, ls.len() as int), "\n"@)
}

fn strip_prefix_trimmed(t: &Vec<char>, p: &str) -> (r: Option<Vec<char>>)
    ensures
        match r {
            Some(v) => starts_with(t@, p@) && v@ == trim(after_prefix(t@, p@)),
            None => !starts_with(t@, p@),
        },
{
    if starts_with_str(t, p) {
        let pv = chars_of(p);
        let rest = slice_chars(t, pv.len(), t.len());
        Some(trim_chars(&rest))
    } else {
        None
    }
}

/// Joins `v[k..]` with newlines.
fn join_lines_from(v: &Vec<Vec<char>>, k: usize) -> (r: Vec<char>)
    requires
        k <= v@.len(),
    ensures
        r@ == join(v@.map_values(|l: Vec<char>| l@).subrange(k as int, v@.len() as int), "\n"@),
{
    let ghost lv = v@.map_values(|l: Vec<char>| l@);
    let mut r: Vec<char> = Vec::new();
    let mut i = k;
    while i < v.len()
        invariant
            k <= i <= v@.len(),
            lv == v@.map_values(|l: Vec<char>| l@),
            r@ == join(lv.subrange(k as int, i as int), "\n"@),
        decreases v.len() - i,
    {
        proof {
            assert(lv.subrange(k as int, i + 1).drop_last() =~= lv.subrange(k as int, i as int));
            assert(lv.subrange(k as int, i + 1).last() == v@[i as int]@);
        }
        if i > k {
            r.push('\n');
            let ghost before = r@;
            let line = &v[i];
            let mut j: usize = 0;
            while j < line.len()
                invariant
                    j <= line@.len(),
                    r@ == before + line@.subrange(0, j as int),
                decreases line.len() - j,
            {
                r.push(line[j]);
                j = j + 1;
                assert(r@ =~= before + line@.subrange(0, j as int));
            }
            assert(line@.subrange(0, line@.len() as int) =~= line@);
            assert(before =~= join(lv.subrange(k as int, i as int), "\n"@) + "\n"@) by {
                assert("\n"@ =~= seq!['\n']) by {
                    reveal_strlit("\n");
                }
            }
        } else {
            r = v[i].clone();
            assert(lv.subrange(k as int, i + 1) =~= seq![v@[i as int]@]);
        }
        i = i + 1;
    }
    r
}

impl Skill {
    /// The skill an `.alisp` file holds, given its file stem and text.
    pub fn from_alisp(stem: &str, content: &str) -> (r: Skill)
        ensures
            r@ == alisp_skill(stem@, content@),
    {
        let cv = chars_of(content);
        let ls = lines_of(&cv);
        let ghost lv = ls@.map_values(|l: Vec<char>| l@);
        let ghost start = HeaderScan {
            name: stem@,
            description: seq![],
            prompt: seq![],
            code_start: 0,
        };
        let mut name = chars_of(stem);
        let mut description: Vec<char> = Vec::new();
        let mut prompt: Vec<char> = Vec::new();
        let mut code_start: usize = 0;
        let mut i: usize = 0;
        while i < ls.len()
            invariant
                lv == ls@.map_values(|l: Vec<char>| l@),
                lv == lines(content@),
                i <= ls@.len(),
                code_start <= i,
                scan_header(
                    lv,
                    i as int,
                    HeaderScan {
                        name: name@,
                        description: description@,
                        prompt: prompt@,
                        code_start: code_start as nat,
                    },
                ) == scan_header(lv, 0, start),
            ensures
                code_start <= ls@.len(),
                scan_header(lv, 0, start) == (HeaderScan {
                    name: name@,
                    description: description@,
                    prompt: prompt@,
                    code_start: code_start as nat,
                }),
            decreases ls.len() - i,
        {
            let t = trim_chars(&ls[i]);
            assert(t@ == trim(lv[i as int]));
            match strip_prefix_trimmed(&t, "; name:") {
                Some(v) => {
                    name = v;
                    code_start = i + 1;
                    i = i + 1;
                    continue;
                },
                None => {},
            }
            match strip_prefix_trimmed(&t, "; description:") {
                Some(v) => {
                    description = v;
                    code_start = i + 1;
                    i = i + 1;
                    continue;
                },
                None => {},
            }
            match strip_prefix_trimmed(&t, "; prompt:") {
                Some(v) => {
                    prompt = v;
                    code_start = i + 1;
                    i = i + 1;
                    continue;
                },
                None => {},
            }
            let semi = starts_with_str(&t, ";");
            if semi && !starts_with_str(&t, "; ") && t.len() > 1 {
                break;
            } else if !semi && t.len() != 0 {
                break;
            }
            code_start = i + 1;
            i = i + 1;
        }
        let init = join_lines_from(&ls, code_start);
        let r = Skill {
            name: string_of(&name),
            description: string_of(&description),
            prompt: string_of(&prompt),
            init_code: string_of(&init),
            commands: Vec::new(),
        };
        assert(pair_views(r.commands@) =~= seq![]);
        r
    }
}

// ---------------------------------------------------------------------------
// JSON skills
// ---------------------------------------------------------------------------
pub open spec fn text_or_empty(o: Option<String>) -> Seq<char> {
    match o {
        Some(t) => t@,
        None => seq![],
    }
}

/// The definitions that a skill's commands add to its code: one
/// `(defn name () code)` per command, each on a line of its own.
pub open spec fn commands_code(cmds: Seq<(Seq<char>, Seq<char>)>) -> Seq<char>
    decreases cmds.len(),
{
    if cmds.len() == 0 {
        seq![]
    } else {
        commands_code(cmds.drop_last()) + "\n(defn "@ + cmds.last().0 + " () "@ + cmds.last().1
            + ")"@
    }
}

/// The skill made of the fields of a JSON file with stem `stem`.
pub open spec fn json_skill(stem: Option<Seq<char>>, f: JsonSkill) -> SkillView {
    let cmds = match f.commands {
        Some(c) => pair_views(c@),
        None => seq![],
    };
    SkillView {
        name: match f.name {
            Some(n) => n@,
            None => match stem {
                Some(t) => t,
                None => "unknown"@,
            },
        },
        description: text_or_empty(f.description),
        prompt: text_or_empty(f.prompt),
        init_code: text_or_empty(f.init) + commands_code(cmds),
        commands: cmds,
    }
}

pub open spec fn stem_view(stem: Option<String>) -> Option<Seq<char>> {
    match stem {
        Some(t) => Some(t@),
        None => None,
    }
}

/// The skill a source holds.
pub open spec fn source_skill(src: SkillSource) -> SkillView {
    match src {
        SkillSource::Alisp { stem, content } => alisp_skill(stem@, content@),
        SkillSource::Json { stem_if_any, fields } => json_skill(stem_view(stem_if_any), fields),
    }
}

fn unwrap_text(o: Option<String>) -> (r: String)
    ensures
        r@ == text_or_empty(o),
{
    match o {
        Some(t) => t,
        None => String::new(),
    }
}

impl Skill {
    /// The skill a JSON skill file holds, given its file stem and fields.
    pub fn from_json(stem: Option<String>, fields: JsonSkill) -> (r: Skill)
        ensures
            r@ == json_skill(stem_view(stem), fields),
    {
        let ghost f = fields;
        let JsonSkill { name, description, prompt, init, commands } = fields;
        let name = match name {
            Some(n) => n,
            None => match stem {
                Some(t) => t,
                None => owned("unknown"),
            },
        };
        let commands = match commands {
            Some(c) => c,
            None => Vec::new(),
        };
        let ghost cv = pair_views(commands@);
        let mut init_code = unwrap_text(init);
        let ghost base = init_code@;
        let mut i: usize = 0;
        while i < commands.len()
            invariant
                i <= commands@.len(),
                cv == pair_views(commands@),
                init_code@ == base + commands_code(cv.take(i as int)),
            decreases commands.len() - i,
        {
            proof {
                assert(cv.take(i + 1).drop_last() =~= cv.take(i as int));
                assert(cv.take(i + 1).last() == cv[i as int]);
            }
            init_code.append("\n(defn ");
            init_code.append(commands[i].0.as_str());
            init_code.append(" () ");
            init_code.append(commands[i].1.as_str());
            init_code.append(")");
            i = i + 1;
            assert(init_code@ =~= base + commands_code(cv.take(i as int)));
        }
        assert(cv.take(commands@.len() as int) =~= cv);
        let r = Skill {
            name,
            description: unwrap_text(description),
            prompt: unwrap_text(prompt),
            init_code,
            commands,
        };
        proof {
            match f.commands {
                Some(c) => {},
                None => {
                    assert(cv =~= seq![]);
                },
            }
        }
        r
    }

    /// The skill a source holds.
    pub fn from_source(src: SkillSource) -> (r: Skill)
        ensures
            r@ == source_skill(src),
    {
        match src {
            SkillSource::Alisp { stem, content } => Skill::from_alisp(stem.as_str(), content.as_str()),
            SkillSource::Json { stem_if_any, fields } => Skill::from_json(stem_if_any, fields),
        }
    }
}

// ---------------------------------------------------------------------------
// Order by name
// ---------------------------------------------------------------------------
/// `a` sorts before or with `b`: the order of `String`, character by
/// character on the code points.
pub open spec fn name_le(a: Seq<char>, b: Seq<char>) -> bool
    decreases a.len(),
{
    if a.len() == 0 {
        true
    } else if b.len() == 0 {
        false
    } else if a[0] != b[0] {
        (a[0] as u32) < (b[0] as u32)
    } else {
        name_le(a.drop_first(), b.drop_first())
    }
}

pub fn name_le_exec(a: &str, b: &str) -> (r: bool)
    ensures
        r == name_le(a@, b@),
{
    let av = chars_of(a);
    let bv = chars_of(b);
    let mut i: usize = 0;
    assert(av@.skip(0) =~= av@);
    assert(bv@.skip(0) =~= bv@);
    while i < av.len() && i < bv.len() && av[i] == bv[i]
        invariant
            i <= av@.len(),
            i <= bv@.len(),
            name_le(av@.skip(i as int), bv@.skip(i as int)) == name_le(av@, bv@),
        decreases av.len() - i,
    {
        assert(av@.skip(i as int).drop_first() =~= av@.skip(i + 1));
        assert(bv@.skip(i as int).drop_first() =~= bv@.skip(i + 1));
        i = i + 1;
    }
    if i == av.len() {
        true
    } else if i == bv.len() {
        false
    } else {
        assert(av@.skip(i as int)[0] == av@[i as int]);
        assert(bv@.skip(i as int)[0] == bv@[i as int]);
        (av[i] as u32) < (bv[i] as u32)
    }
}

/// `x` placed into the name-sorted `sorted` after every skill whose name
/// sorts before or with its own.
pub open spec fn insert_by_name(sorted: Seq<SkillView>, x: SkillView) -> Seq<SkillView>
    decreases sorted.len(),
{
    if sorted.len() == 0 {
        seq![x]
    } else if name_le(sorted.last().name, x.name) {
        sorted.push(x)
    } else {
        insert_by_name(sorted.drop_last(), x).push(sorted.last())
    }
}

/// `s` sorted by name, skills with equal names kept in their order (a
/// stable sort, as `sort_by` is).
pub open spec fn sort_by_name(s: Seq<SkillView>) -> Seq<SkillView>
    decreases s.len(),
{
    if s.len() == 0 {
        seq![]
    } else {
        insert_by_name(sort_by_name(s.drop_last()), s.last())
    }
}

/// Sorts `skills` by name, keeping skills with equal names in order.
pub fn sort_skills(skills: Vec<Skill>) -> (r: Vec<Skill>)
    ensures
        skill_views(r@) == sort_by_name(skill_views(skills@)),
{
    let ghost orig = skill_views(skills@);
    let mut rest = skills;
    let mut sorted: Vec<Skill> = Vec::new();
    let ghost mut k: int = 0;
    while rest.len() > 0
        invariant
            0 <= k <= orig.len(),
            skill_views(rest@) == orig.skip(k),
            skill_views(sorted@) == sort_by_name(orig.take(k)),
        decreases rest.len(),
    {
        let ghost rv = rest@;
        assert(skill_views(rv).len() == rv.len());
        let x = rest.remove(0);
        proof {
            assert(skill_views(rv)[0] == x@);
            assert(orig.skip(k)[0] == x@);
            assert(orig.take(k + 1).drop_last() =~= orig.take(k));
            assert(orig.take(k + 1).last() == x@);
        }
        let ghost sv = skill_views(sorted@);
        let mut j = sorted.len();
        assert(sv.take(j as int) =~= sv);
        assert(sv.skip(j as int) =~= Seq::<SkillView>::empty());
        assert(insert_by_name(sv, x@) =~= insert_by_name(sv.take(j as int), x@) + sv.skip(j as int));
        while j > 0 && !name_le_exec(sorted[j - 1].name.as_str(), x.name.as_str())
            invariant
                j <= sorted@.len(),
                sv == skill_views(sorted@),
                insert_by_name(sv, x@) == insert_by_name(sv.take(j as int), x@) + sv.skip(
                    j as int,
                ),
            decreases j,
        {
            proof {
                assert(sv.take(j as int).drop_last() =~= sv.take(j - 1));
                assert(sv.take(j as int).last() == sv[j - 1]);
                assert(sv.skip(j - 1) =~= seq![sv[j - 1]] + sv.skip(j as int));
                assert(insert_by_name(sv.take(j - 1), x@).push(sv[j - 1]) + sv.skip(j as int)
                    =~= insert_by_name(sv.take(j - 1), x@) + sv.skip(j - 1));
            }
            j = j - 1;
        }
        proof {
            if j > 0 {
                assert(sv.take(j as int).last() == sv[j - 1]);
            }
            assert(insert_by_name(sv.take(j as int), x@) == sv.take(j as int).push(x@));
        }
        sorted.insert(j, x);
        proof {
            assert(skill_views(sorted@) =~= sv.take(j as int).push(x@) + sv.skip(j as int));
            assert(rest@ =~= rv.skip(1));
            assert forall|t: int| 0 <= t < rest@.len() implies skill_views(rest@)[t] == orig.skip(
                k + 1,
            )[t] by {
                assert(skill_views(rest@)[t] == rest@[t]@);
                assert(rest@[t] == rv[t + 1]);
                assert(skill_views(rv)[t + 1] == orig.skip(k)[t + 1]);
            }
            assert(skill_views(rest@) =~= orig.skip(k + 1));
            k = k + 1;
        }
    }
    assert(orig.take(k) =~= orig);
    sorted
}

/// Skills in order of their names.
pub open spec fn sorted_by_name(s: Seq<SkillView>) -> bool {
    forall|i: int, j: int| 0 <= i < j < s.len() ==> name_le(#[trigger] s[i].name, #[trigger] s[j].name)
}

pub proof fn lemma_name_le_total(a: Seq<char>, b: Seq<char>)
    ensures
        name_le(a, b) || name_le(b, a),
    decreases a.len(),
{
    if a.len() > 0 && b.len() > 0 {
        if a[0] == b[0] {
            lemma_name_le_total(a.drop_first(), b.drop_first());
        } else {
            vstd::utf8::char_u32_cast(a[0], a[0] as u32);
            vstd::utf8::char_u32_cast(b[0], b[0] as u32);
        }
    }
}

pub proof fn lemma_name_le_transitive(a: Seq<char>, b: Seq<char>, c: Seq<char>)
    requires
        name_le(a, b),
        name_le(b, c),
    ensures
        name_le(a, c),
    decreases a.len(),
{
    if a.len() > 0 && b.len() > 0 && c.len() > 0 && a[0] == b[0] && b[0] == c[0] {
        lemma_name_le_transitive(a.drop_first(), b.drop_first(), c.drop_first());
    }
}

proof fn lemma_insert_by_name(s: Seq<SkillView>, x: SkillView)
    requires
        sorted_by_name(s),
    ensures
        sorted_by_name(insert_by_name(s, x)),
        insert_by_name(s, x).to_multiset() == s.to_multiset().insert(x),
        insert_by_name(s, x).len() == s.len() + 1,
        forall|i: int|
            0 <= i < insert_by_name(s, x).len() ==> #[trigger] insert_by_name(s, x)[i] == x
                || s.contains(insert_by_name(s, x)[i]),
    decreases s.len(),
{
    broadcast use vstd::seq_lib::group_to_multiset_ensures;

    if s.len() == 0 {
        assert(s.to_multiset().insert(x) =~= seq![x].to_multiset()) by {
            assert(seq![x] =~= s.push(x));
        }
    } else if name_le(s.last().name, x.name) {
        let r = s.push(x);
        assert forall|i: int, j: int| 0 <= i < j < r.len() implies name_le(
            #[trigger] r[i].name,
            #[trigger] r[j].name,
        ) by {
            if j == r.len() - 1 {
                if i < s.len() - 1 {
                    lemma_name_le_transitive(s[i].name, s.last().name, x.name);
                }
            }
        }
        assert forall|i: int| 0 <= i < r.len() implies #[trigger] r[i] == x || s.contains(r[i]) by {
            if i < s.len() {
                assert(s[i] == r[i]);
            }
        }
    } else {
        let init = s.drop_last();
        let last = s.last();
        assert(sorted_by_name(init)) by {
            assert forall|i: int, j: int| 0 <= i < j < init.len() implies name_le(
                #[trigger] init[i].name,
                #[trigger] init[j].name,
            ) by {
                assert(init[i] == s[i] && init[j] == s[j]);
            }
        }
        lemma_insert_by_name(init, x);
        let m = insert_by_name(init, x);
        let r = m.push(last);
        lemma_name_le_total(last.name, x.name);
        assert forall|i: int| 0 <= i < m.len() implies name_le(#[trigger] m[i].name, last.name) by {
            if m[i] != x {
                assert(init.contains(m[i]));
                let k = choose|k: int| 0 <= k < init.len() && init[k] == m[i];
                assert(s[k] == m[i]);
                assert(s[s.len() - 1] == last);
            }
        }
        assert forall|i: int, j: int| 0 <= i < j < r.len() implies name_le(
            #[trigger] r[i].name,
            #[trigger] r[j].name,
        ) by {
            if j == r.len() - 1 {
                assert(r[i] == m[i]);
            } else {
                assert(r[i] == m[i] && r[j] == m[j]);
            }
        }
        assert forall|i: int| 0 <= i < r.len() implies #[trigger] r[i] == x || s.contains(r[i]) by {
            if i < m.len() {
                assert(r[i] == m[i]);
                if m[i] != x {
                    assert(init.contains(m[i]));
                    let k = choose|k: int| 0 <= k < init.len() && init[k] == m[i];
                    assert(s[k] == m[i]);
                }
            } else {
                assert(s[s.len() - 1] == r[i]);
            }
        }
        assert(s =~= init.push(last));
        assert(m.to_multiset() == init.to_multiset().insert(x));
        assert(r.to_multiset() =~= s.to_multiset().insert(x));
    }
}

/// Sorting by name puts the skills in order of their names and keeps every
/// skill, each as often as it came.
pub proof fn law_sort_by_name(s: Seq<SkillView>)
    ensures
        sorted_by_name(sort_by_name(s)),
        sort_by_name(s).to_multiset() == s.to_multiset(),
    decreases s.len(),
{
    broadcast use vstd::seq_lib::group_to_multiset_ensures;

    if s.len() > 0 {
        law_sort_by_name(s.drop_last());
        lemma_insert_by_name(sort_by_name(s.drop_last()), s.last());
        assert(s =~= s.drop_last().push(s.last()));
    } else {
        assert(s.to_multiset() =~= Seq::<SkillView>::empty().to_multiset());
    }
}

/// The skills of several directories: each directory's skills sorted by
/// name, the directories in order.
pub open spec fn dirs_skills(dirs: Seq<Seq<SkillView>>) -> Seq<SkillView>
    decreases dirs.len(),
{
    if dirs.len() == 0 {
        seq![]
    } else {
        dirs_skills(dirs.drop_last()) + sort_by_name(dirs.last())
    }
}

pub open spec fn source_skills(srcs: Seq<SkillSource>) -> Seq<SkillView> {
    srcs.map_values(|s: SkillSource| source_skill(s))
}

pub open spec fn dirs_sources(dirs: Seq<Vec<SkillSource>>) -> Seq<Seq<SkillView>> {
    dirs.map_values(|d: Vec<SkillSource>| source_skills(d@))
}

impl Skill {
    /// The skills of the given directories, each given by the skill files
    /// read from it.
    pub fn load_dirs(dirs: Vec<Vec<SkillSource>>) -> (r: Vec<Skill>)
        ensures
            skill_views(r@) == dirs_skills(dirs_sources(dirs@)),
    {
        let ghost dv = dirs_sources(dirs@);
        let mut all: Vec<Skill> = Vec::new();
        let mut rest = dirs;
        let ghost mut k: int = 0;
        while rest.len() > 0
            invariant
                0 <= k <= dv.len(),
                dirs_sources(rest@) == dv.skip(k),
                skill_views(all@) == dirs_skills(dv.take(k)),
            decreases rest.len(),
        {
            let ghost rv = rest@;
            assert(dirs_sources(rv).len() == rv.len());
            let mut dir = rest.remove(0);
            proof {
                assert(dirs_sources(rv)[0] == source_skills(dir@));
                assert(rest@ =~= rv.skip(1));
                assert forall|t: int| 0 <= t < rest@.len() implies dirs_sources(rest@)[t]
                    == dv.skip(k + 1)[t] by {
                    assert(rest@[t] == rv[t + 1]);
                    assert(dirs_sources(rv)[t + 1] == dv.skip(k)[t + 1]);
                }
                assert(dirs_sources(rest@) =~= dv.skip(k + 1));
                assert(dv.take(k + 1).drop_last() =~= dv.take(k));
            }
            let ghost dir_v = source_skills(dir@);
            let mut parsed: Vec<Skill> = Vec::new();
            let ghost mut m: int = 0;
            while dir.len() > 0
                invariant
                    0 <= m <= dir_v.len(),
                    source_skills(dir@) == dir_v.skip(m),
                    skill_views(parsed@) == dir_v.take(m),
                decreases dir.len(),
            {
                let ghost dv0 = dir@;
                assert(source_skills(dv0).len() == dv0.len());
                let src = dir.remove(0);
                let sk = Skill::from_source(src);
                proof {
                    assert(source_skills(dv0)[0] == sk@);
                    assert(dir@ =~= dv0.skip(1));
                    assert(dir_v.skip(m)[0] == sk@);
                    assert forall|t: int| 0 <= t < dir@.len() implies source_skills(dir@)[t]
                        == dir_v.skip(m + 1)[t] by {
                        assert(dir@[t] == dv0[t + 1]);
                        assert(source_skills(dv0)[t + 1] == dir_v.skip(m)[t + 1]);
                    }
                    assert(source_skills(dir@) =~= dir_v.skip(m + 1));
                }
                let ghost pv = parsed@;
                parsed.push(sk);
                proof {
                    assert(skill_views(parsed@) =~= skill_views(pv).push(sk@));
                    assert(skill_views(parsed@) =~= dir_v.take(m + 1));
                    m = m + 1;
                }
            }
            assert(dir_v.take(m) =~= dir_v);
            let sorted = sort_skills(parsed);
            let ghost before = skill_views(all@);
            let mut sorted = sorted;
            all.append(&mut sorted);
            proof {
                assert(skill_views(all@) =~= before + sort_by_name(dir_v));
                k = k + 1;
            }
        }
        assert(dv.take(k) =~= dv);
        all
    }
}

// ---------------------------------------------------------------------------
// The skill index of the system prompt
// ---------------------------------------------------------------------------
pub open spec fn command_lines(cmds: Seq<(Seq<char>, Seq<char>)>) -> Seq<char>
    decreases cmds.len(),
{
    if cmds.len() == 0 {
        seq![]
    } else {
        command_lines(cmds.drop_last()) + "  - `("@ + cmds.last().0 + ")` \u{2014} see skill docs\n"@
    }
}

pub open spec fn skill_entry(s: SkillView) -> Seq<char> {
    "### "@ + s.name + "\n"@ + (if s.description.len() > 0 {
        s.description + "\n"@
    } else {
        seq![]
    }) + (if s.commands.len() > 0 {
        "Commands:\n"@ + command_lines(s.commands)
    } else {
        seq![]
    }) + "\n"@
}

pub open spec fn skill_entries(skills: Seq<SkillView>) -> Seq<char>
    decreases skills.len(),
{
    if skills.len() == 0 {
        seq![]
    } else {
        skill_entries(skills.drop_last()) + skill_entry(skills.last())
    }
}

/// The index header that opens the skill index.
pub open spec fn index_header() -> Seq<char> {
    "\n## Available Skills\n\n"@
}

/// The section of the system prompt that lists the skills; empty when
/// there are none.
pub open spec fn skill_index_text(skills: Seq<SkillView>) -> Seq<char> {
    if skills.len() == 0 {
        seq![]
    } else {
        index_header() + skill_entries(skills)
    }
}

fn push_command_lines(out: &mut String, cmds: &Vec<(String, String)>)
    ensures
        final(out)@ == old(out)@ + command_lines(pair_views(cmds@)),
{
    let ghost cv = pair_views(cmds@);
    let mut j: usize = 0;
    while j < cmds.len()
        invariant
            j <= cmds@.len(),
            cv == pair_views(cmds@),
            out@ == old(out)@ + command_lines(cv.take(j as int)),
        decreases cmds.len() - j,
    {
        proof {
            assert(cv.take(j + 1).drop_last() =~= cv.take(j as int));
            assert(cv.take(j + 1).last() == cv[j as int]);
        }
        out.append("  - `(");
        out.append(cmds[j].0.as_str());
        out.append(")` \u{2014} see skill docs\n");
        j = j + 1;
        assert(out@ =~= old(out)@ + command_lines(cv.take(j as int)));
    }
    assert(cv.take(cmds@.len() as int) =~= cv);
}

fn push_skill_entry(out: &mut String, skill: &Skill)
    ensures
        final(out)@ == old(out)@ + skill_entry(skill@),
{
    out.append("### ");
    out.append(skill.name.as_str());
    out.append("\n");
    if !skill.description.as_str().is_empty() {
        out.append(skill.description.as_str());
        out.append("\n");
    }
    let ghost mid = out@;
    if skill.commands.len() > 0 {
        out.append("Commands:\n");
        push_command_lines(out, &skill.commands);
    }
    assert(out@ =~= mid + (if skill@.commands.len() > 0 {
        "Commands:\n"@ + command_lines(skill@.commands)
    } else {
        seq![]
    }));
    out.append("\n");
    assert(out@ =~= old(out)@ + skill_entry(skill@));
}

impl Skill {
    pub fn skill_index(skills: &[Skill]) -> (r: String)
        ensures
            r@ == skill_index_text(skill_views(skills@)),
    {
        if skills.len() == 0 {
            return String::new();
        }
        let ghost sv = skill_views(skills@);
        let mut out = owned("\n## Available Skills\n\n");
        let ghost head = out@;
        let mut i: usize = 0;
        while i < skills.len()
            invariant
                i <= skills@.len(),
                sv == skill_views(skills@),
                out@ == head + skill_entries(sv.take(i as int)),
            decreases skills.len() - i,
        {
            proof {
                assert(sv.take(i + 1).drop_last() =~= sv.take(i as int));
                assert(sv.take(i + 1).last() == skills@[i as int]@);
            }
            push_skill_entry(&mut out, &skills[i]);
            i = i + 1;
            assert(out@ =~= head + skill_entries(sv.take(i as int)));
        }
        assert(sv.take(skills@.len() as int) =~= sv);
        out
    }
}

/// What the skill index shows of a skill: its name, its description and the
/// names of its commands.
pub open spec fn index_key(s: SkillView) -> (Seq<char>, Seq<char>, Seq<Seq<char>>) {
    (s.name, s.description, s.commands.map_values(|c: (Seq<char>, Seq<char>)| c.0))
}

proof fn lemma_entries_concat(a: Seq<SkillView>, b: Seq<SkillView>)
    ensures
        skill_entries(a + b) == skill_entries(a) + skill_entries(b),
    decreases b.len(),
{
    if b.len() == 0 {
        assert(a + b =~= a);
        assert(skill_entries(a) + seq![] =~= skill_entries(a));
    } else {
        lemma_entries_concat(a, b.drop_last());
        assert((a + b).drop_last() =~= a + b.drop_last());
        assert((a + b).last() == b.last());
        assert(skill_entries(a + b) =~= skill_entries(a) + skill_entries(b));
    }
}

proof fn lemma_command_lines_by_names(x: Seq<(Seq<char>, Seq<char>)>, y: Seq<(Seq<char>, Seq<char>)>)
    requires
        x.map_values(|c: (Seq<char>, Seq<char>)| c.0) == y.map_values(
            |c: (Seq<char>, Seq<char>)| c.0,
        ),
    ensures
        command_lines(x) == command_lines(y),
    decreases x.len(),
{
    let nx = x.map_values(|c: (Seq<char>, Seq<char>)| c.0);
    let ny = y.map_values(|c: (Seq<char>, Seq<char>)| c.0);
    assert(x.len() == nx.len() && y.len() == ny.len());
    if x.len() > 0 {
        assert(nx[x.len() - 1] == ny[y.len() - 1]);
        assert(x.drop_last().map_values(|c: (Seq<char>, Seq<char>)| c.0) =~= nx.drop_last());
        assert(y.drop_last().map_values(|c: (Seq<char>, Seq<char>)| c.0) =~= ny.drop_last());
        lemma_command_lines_by_names(x.drop_last(), y.drop_last());
    }
}

proof fn lemma_entries_by_keys(a: Seq<SkillView>, b: Seq<SkillView>)
    requires
        a.len() == b.len(),
        forall|i: int| 0 <= i < a.len() ==> index_key(a[i]) == index_key(b[i]),
    ensures
        skill_entries(a) == skill_entries(b),
    decreases a.len(),
{
    if a.len() > 0 {
        let x = a.last();
        let y = b.last();
        assert(index_key(x) == index_key(y));
        assert(x.commands.map_values(|c: (Seq<char>, Seq<char>)| c.0).len() == x.commands.len());
        assert(y.commands.map_values(|c: (Seq<char>, Seq<char>)| c.0).len() == y.commands.len());
        lemma_command_lines_by_names(x.commands, y.commands);
        assert(skill_entry(x) == skill_entry(y));
        assert forall|i: int| 0 <= i < a.len() - 1 implies index_key(a.drop_last()[i]) == index_key(
            b.drop_last()[i],
        ) by {
            assert(a.drop_last()[i] == a[i]);
            assert(b.drop_last()[i] == b[i]);
        }
        lemma_entries_by_keys(a.drop_last(), b.drop_last());
    }
}

/// The skill index of no skills is empty; that of two non-empty lists of
/// skills, one after the other, is the index of the first followed by the
/// entries of the second, without a second header.
pub proof fn law_skill_index_concat(a: Seq<SkillView>, b: Seq<SkillView>)
    requires
        a.len() > 0,
        b.len() > 0,
    ensures
        skill_index_text(seq![]) == Seq::<char>::empty(),
        skill_index_text(a + b) == skill_index_text(a) + skill_index_text(b).subrange(
            index_header().len() as int,
            skill_index_text(b).len() as int,
        ),
{
    lemma_entries_concat(a, b);
    let ib = skill_index_text(b);
    assert(ib.subrange(index_header().len() as int, ib.len() as int) =~= skill_entries(b));
    assert(skill_index_text(a + b) =~= skill_index_text(a) + skill_entries(b));
}

/// The skill index shows only each skill's name, description and command
/// names: two lists that agree on those, skill by skill, have the same
/// index, whatever their prompts, initialization code and command bodies.
pub proof fn law_skill_index_shows_only_keys(a: Seq<SkillView>, b: Seq<SkillView>)
    requires
        a.len() == b.len(),
        forall|i: int| 0 <= i < a.len() ==> index_key(a[i]) == index_key(b[i]),
    ensures
        skill_index_text(a) == skill_index_text(b),
{
    lemma_entries_by_keys(a, b);
}

/// A JSON skill is named by its `name` field where it has one, whatever
/// file it came from; only without it does the file stem name it, and
/// without either it is `unknown`. Its description and prompt are those the
/// JSON gives, or empty, and the stem changes nothing but the name.
pub proof fn law_json_skill_name(stem: Option<Seq<char>>, other: Option<Seq<char>>, f: JsonSkill)
    ensures
        f.name matches Some(n) ==> json_skill(stem, f).name == n@,
        f.name is None ==> (stem matches Some(t) ==> json_skill(stem, f).name == t),
        f.name is None && stem is None ==> json_skill(stem, f).name == "unknown"@,
        f.description matches Some(d) ==> json_skill(stem, f).description == d@,
        f.description is None ==> json_skill(stem, f).description.len() == 0,
        f.prompt matches Some(p) ==> json_skill(stem, f).prompt == p@,
        f.prompt is None ==> json_skill(stem, f).prompt.len() == 0,
        json_skill(stem, f).description == json_skill(other, f).description,
        json_skill(stem, f).prompt == json_skill(other, f).prompt,
        json_skill(stem, f).init_code == json_skill(other, f).init_code,
        json_skill(stem, f).commands == json_skill(other, f).commands,
{
}

/// An `.alisp` file whose first line is code has no header: it is named by
/// its file stem, has no description or prompt, and all its lines are its
/// code. One whose first line is `; name: n` followed by a line of code is
/// named `n` (trimmed), and its code is every line after the first.
pub proof fn law_alisp_header(stem: Seq<char>, content: Seq<char>)
    ensures
        lines(content).len() > 0 && !starts_with(trim(lines(content)[0]), ";"@) && trim(
            lines(content)[0],
        ).len() > 0 ==> alisp_skill(stem, content).name == stem && alisp_skill(
            stem,
            content,
        ).description.len() == 0 && alisp_skill(stem, content).prompt.len() == 0 && alisp_skill(
            stem,
            content,
        ).init_code == join(lines(content), "\n"@),
        lines(content).len() > 1 && starts_with(trim(lines(content)[0]), "; name:"@)
            && !starts_with(trim(lines(content)[1]), ";"@) && trim(lines(content)[1]).len() > 0
            ==> alisp_skill(stem, content).name == trim(
            after_prefix(trim(lines(content)[0]), "; name:"@),
        ) && alisp_skill(stem, content).init_code == join(lines(content).drop_first(), "\n"@),
{
    let ls = lines(content);
    assert(ls.subrange(0, ls.len() as int) =~= ls);
    if ls.len() > 1 {
        assert(ls.subrange(1, ls.len() as int) =~= ls.drop_first());
    }
    if ls.len() > 0 {
        lemma_header_lines_are_comments(trim(ls[0]));
    }
    if ls.len() > 1 {
        lemma_header_lines_are_comments(trim(ls[1]));
        let t0 = trim(ls[0]);
        let t1 = trim(ls[1]);
        if starts_with(t0, "; name:"@) && !starts_with(t1, ";"@) && t1.len() > 0 {
            let st0 = HeaderScan { name: stem, description: seq![], prompt: seq![], code_start: 0 };
            let st1 = HeaderScan { name: trim(after_prefix(t0, "; name:"@)), code_start: 1, ..st0 };
            assert(scan_header(ls, 0, st0) == scan_header(ls, 1, st1));
            assert(scan_header(ls, 1, st1) == st1);
            assert(alisp_header(stem, content) == st1);
        }
    }
}

/// A header line starts with `;`.
proof fn lemma_header_lines_are_comments(t: Seq<char>)
    ensures
        starts_with(t, "; name:"@) ==> starts_with(t, ";"@),
        starts_with(t, "; description:"@) ==> starts_with(t, ";"@),
        starts_with(t, "; prompt:"@) ==> starts_with(t, ";"@),
{
    reveal_strlit(";");
    reveal_strlit("; name:");
    reveal_strlit("; description:");
    reveal_strlit("; prompt:");
    if starts_with(t, "; name:"@) {
        assert(t[0] == "; name:"@[0]);
        assert(t.subrange(0, 1) =~= ";"@);
    }
    if starts_with(t, "; description:"@) {
        assert(t[0] == "; description:"@[0]);
        assert(t.subrange(0, 1) =~= ";"@);
    }
    if starts_with(t, "; prompt:"@) {
        assert(t[0] == "; prompt:"@[0]);
        assert(t.subrange(0, 1) =~= ";"@);
    }
}

} // verus!
