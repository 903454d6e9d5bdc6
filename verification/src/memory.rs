//! The per-project memory: where its database lies, and the code that
//! opens it and creates its tables.
use crate::text::owned;
use vstd::prelude::*;

verus! {

pub struct MemoryManager {
    pub db_path: String,
}

/// `base` joined with the relative path component `name`, as a Unix
/// `PathBuf::push` joins them: a separator between them where `base` is not
/// empty and does not end in one.
pub open spec fn join_path(base: Seq<char>, name: Seq<char>) -> Seq<char> {
    if base.len() == 0 || base.last() == '/' {
        base + name
    } else {
        base + "/"@ + name
    }
}

/// The memory database of the project in directory `dir`: its own
/// `memory.db`.
pub open spec fn project_db_path(dir: Seq<char>) -> Seq<char> {
    join_path(dir, "memory.db"@)
}

fn join_component(base: &str, name: &str) -> (r: String)
    ensures
        r@ == join_path(base@, name@),
{
    let mut r = owned(base);
    if !base.is_empty() {
        let n = base.unicode_len();
        if base.get_char(n - 1) != '/' {
            r.append("/");
        }
    }
    r.append(name);
    r
}

/// The opening part of the initialization code, up to the database path.
pub open spec fn init_head() -> Seq<char> {
    "\n(do\n  ;; Open the memory database\n  (sql-open \""@
}

/// The part of the initialization code between the two mentions of the
/// database path: the tables and indexes it creates.
pub open spec fn init_middle() -> Seq<char> {
    "\" \"default\")\n"@
        + "\n"@
        + "  ;; Create core memory tables\n"@
        + "  (sql-execute \"\n"@
        + "    CREATE TABLE IF NOT EXISTS memories (\n"@
        + "      id INTEGER PRIMARY KEY AUTOINCREMENT,\n"@
        + "      category TEXT NOT NULL DEFAULT 'fact',\n"@
        + "      key TEXT NOT NULL,\n"@
        + "      value TEXT NOT NULL,\n"@
        + "      context TEXT,\n"@
        + "      importance INTEGER DEFAULT 5,\n"@
        + "      created_at TEXT DEFAULT (datetime('now')),\n"@
        + "      accessed_at TEXT DEFAULT (datetime('now')),\n"@
        + "      access_count INTEGER DEFAULT 0\n"@
        + "    )\n"@
        + "  \")\n"@
        + "\n"@
        + "  (sql-execute \"\n"@
        + "    CREATE TABLE IF NOT EXISTS conversations (\n"@
        + "      id INTEGER PRIMARY KEY AUTOINCREMENT,\n"@
        + "      role TEXT NOT NULL,\n"@
        + "      content TEXT NOT NULL,\n"@
        + "      topic TEXT,\n"@
        + "      timestamp TEXT DEFAULT (datetime('now'))\n"@
        + "    )\n"@
        + "  \")\n"@
        + "\n"@
        + "  (sql-execute \"\n"@
        + "    CREATE TABLE IF NOT EXISTS entities (\n"@
        + "      id INTEGER PRIMARY KEY AUTOINCREMENT,\n"@
        + "      name TEXT NOT NULL UNIQUE,\n"@
        + "      entity_type TEXT NOT NULL DEFAULT 'unknown',\n"@
        + "      attributes TEXT,\n"@
        + "      created_at TEXT DEFAULT (datetime('now')),\n"@
        + "      updated_at TEXT DEFAULT (datetime('now'))\n"@
        + "    )\n"@
        + "  \")\n"@
        + "\n"@
        + "  (sql-execute \"\n"@
        + "    CREATE TABLE IF NOT EXISTS knowledge (\n"@
        + "      id INTEGER PRIMARY KEY AUTOINCREMENT,\n"@
        + "      domain TEXT NOT NULL DEFAULT 'general',\n"@
        + "      topic TEXT NOT NULL,\n"@
        + "      fact TEXT NOT NULL,\n"@
        + "      source TEXT,\n"@
        + "      confidence REAL DEFAULT 1.0,\n"@
        + "      created_at TEXT DEFAULT (datetime('now'))\n"@
        + "    )\n"@
        + "  \")\n"@
        + "\n"@
        + "  ;; Create indexes for fast lookup\n"@
        + "  (sql-execute \"CREATE INDEX IF NOT EXISTS idx_memories_category ON memories(category)\")\n"@
        + "  (sql-execute \"CREATE INDEX IF NOT EXISTS idx_memories_key ON memories(key)\")\n"@
        + "  (sql-execute \"CREATE INDEX IF NOT EXISTS idx_conversations_topic ON conversations(topic)\")\n"@
        + "  (sql-execute \"CREATE INDEX IF NOT EXISTS idx_entities_name ON entities(name)\")\n"@
        + "  (sql-execute \"CREATE INDEX IF NOT EXISTS idx_knowledge_domain ON knowledge(domain)\")\n"@
        + "\n"@
        + "  (println \"memory: database initialized at "@
}

/// The closing part of the initialization code.
pub open spec fn init_tail() -> Seq<char> {
    "\")\n)\n"@
}

/// The initialization code for the database at `db_path`.
pub open spec fn init_text(db_path: Seq<char>) -> Seq<char> {
    init_head() + db_path + init_middle() + db_path + init_tail()
}

fn init_middle_text() -> (r: String)
    ensures
        r@ == init_middle(),
{
    let mut r = owned("\" \"default\")\n");
    r.append("\n");
    r.append("  ;; Create core memory tables\n");
    r.append("  (sql-execute \"\n");
    r.append("    CREATE TABLE IF NOT EXISTS memories (\n");
    r.append("      id INTEGER PRIMARY KEY AUTOINCREMENT,\n");
    r.append("      category TEXT NOT NULL DEFAULT 'fact',\n");
    r.append("      key TEXT NOT NULL,\n");
    r.append("      value TEXT NOT NULL,\n");
    r.append("      context TEXT,\n");
    r.append("      importance INTEGER DEFAULT 5,\n");
    r.append("      created_at TEXT DEFAULT (datetime('now')),\n");
    r.append("      accessed_at TEXT DEFAULT (datetime('now')),\n");
    r.append("      access_count INTEGER DEFAULT 0\n");
    r.append("    )\n");
    r.append("  \")\n");
    r.append("\n");
    r.append("  (sql-execute \"\n");
    r.append("    CREATE TABLE IF NOT EXISTS conversations (\n");
    r.append("      id INTEGER PRIMARY KEY AUTOINCREMENT,\n");
    r.append("      role TEXT NOT NULL,\n");
    r.append("      content TEXT NOT NULL,\n");
    r.append("      topic TEXT,\n");
    r.append("      timestamp TEXT DEFAULT (datetime('now'))\n");
    r.append("    )\n");
    r.append("  \")\n");
    r.append("\n");
    r.append("  (sql-execute \"\n");
    r.append("    CREATE TABLE IF NOT EXISTS entities (\n");
    r.append("      id INTEGER PRIMARY KEY AUTOINCREMENT,\n");
    r.append("      name TEXT NOT NULL UNIQUE,\n");
    r.append("      entity_type TEXT NOT NULL DEFAULT 'unknown',\n");
    r.append("      attributes TEXT,\n");
    r.append("      created_at TEXT DEFAULT (datetime('now')),\n");
    r.append("      updated_at TEXT DEFAULT (datetime('now'))\n");
    r.append("    )\n");
    r.append("  \")\n");
    r.append("\n");
    r.append("  (sql-execute \"\n");
    r.append("    CREATE TABLE IF NOT EXISTS knowledge (\n");
    r.append("      id INTEGER PRIMARY KEY AUTOINCREMENT,\n");
    r.append("      domain TEXT NOT NULL DEFAULT 'general',\n");
    r.append("      topic TEXT NOT NULL,\n");
    r.append("      fact TEXT NOT NULL,\n");
    r.append("      source TEXT,\n");
    r.append("      confidence REAL DEFAULT 1.0,\n");
    r.append("      created_at TEXT DEFAULT (datetime('now'))\n");
    r.append("    )\n");
    r.append("  \")\n");
    r.append("\n");
    r.append("  ;; Create indexes for fast lookup\n");
    r.append("  (sql-execute \"CREATE INDEX IF NOT EXISTS idx_memories_category ON memories(category)\")\n");
    r.append("  (sql-execute \"CREATE INDEX IF NOT EXISTS idx_memories_key ON memories(key)\")\n");
    r.append("  (sql-execute \"CREATE INDEX IF NOT EXISTS idx_conversations_topic ON conversations(topic)\")\n");
    r.append("  (sql-execute \"CREATE INDEX IF NOT EXISTS idx_entities_name ON entities(name)\")\n");
    r.append("  (sql-execute \"CREATE INDEX IF NOT EXISTS idx_knowledge_domain ON knowledge(domain)\")\n");
    r.append("\n");
    r.append("  (println \"memory: database initialized at ");
    r
}

impl MemoryManager {
    /// The memory of the project in directory `project_dir`.
    pub fn new(project_dir: &str) -> (r: Self)
        ensures
            r.db_path@ == project_db_path(project_dir@),
    {
        let db_path = Self::default_db_path(project_dir);
        Self { db_path }
    }

    pub fn with_path(db_path: String) -> (r: Self)
        ensures
            r.db_path == db_path,
    {
        Self { db_path }
    }

    /// The path of the memory database of the project in `project_dir`.
    pub fn default_db_path(project_dir: &str) -> (r: String)
        ensures
            r@ == project_db_path(project_dir@),
    {
        join_component(project_dir, "memory.db")
    }

    /// The alisp code that opens the memory database and creates its tables
    /// where they do not exist.
    pub fn init_code(&self) -> (r: String)
        ensures
            r@ == init_text(self.db_path@),
    {
        let mut r = owned("\n(do\n  ;; Open the memory database\n  (sql-open \"");
        r.append(self.db_path.as_str());
        let middle = init_middle_text();
        r.append(middle.as_str());
        r.append(self.db_path.as_str());
        r.append("\")\n)\n");
        r
    }
}

} // verus!
