use lai::memory::MemoryManager;

#[test]
fn database_paths() {
    assert_eq!(MemoryManager::default_db_path("/proj"), "/proj/memory.db");
    assert_eq!(MemoryManager::default_db_path("/proj/"), "/proj/memory.db");
    assert_eq!(MemoryManager::default_db_path(""), "memory.db");
    assert_eq!(MemoryManager::new("/home/u/work").db_path, "/home/u/work/memory.db");
    assert_eq!(MemoryManager::new("").db_path, "memory.db");
    assert_eq!(MemoryManager::with_path("x.db".to_string()).db_path, "x.db");
}

#[test]
fn init_code_names_the_database() {
    let m = MemoryManager::with_path("/tmp/m.db".to_string());
    let code = m.init_code();
    assert!(code.starts_with("\n(do\n  ;; Open the memory database\n  (sql-open \"/tmp/m.db\" \"default\")\n"));
    assert!(code.ends_with("  (println \"memory: database initialized at /tmp/m.db\")\n)\n"));
    assert!(code.contains("CREATE TABLE IF NOT EXISTS memories ("));
    assert!(code.contains("CREATE INDEX IF NOT EXISTS idx_knowledge_domain ON knowledge(domain)"));
    assert_eq!(code.matches("/tmp/m.db").count(), 2);
}
