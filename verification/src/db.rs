//! The database schema and per-connection settings.
//!
//! Each migration entry is a single SQL statement, safe to re-execute
//! against an already-migrated database; the application executes them in
//! order at startup, before any store operation is reachable.

use vstd::prelude::*;

verus! {

/// The schema statements, in the order they must run.
pub open spec fn migration_statements() -> Seq<Seq<char>> {
    seq![
        "CREATE TABLE IF NOT EXISTS conversations (
            id TEXT PRIMARY KEY,
            title TEXT NOT NULL DEFAULT 'New Conversation',
            created_at TEXT NOT NULL DEFAULT (datetime('now')),
            updated_at TEXT NOT NULL DEFAULT (datetime('now'))
        )"@,
        "CREATE INDEX IF NOT EXISTS idx_conversations_updated_at ON conversations(updated_at)"@,
        "CREATE TABLE IF NOT EXISTS messages (
            id TEXT PRIMARY KEY,
            conversation_id TEXT NOT NULL,
            role TEXT NOT NULL CHECK (role IN ('user', 'assistant', 'system')),
            content TEXT NOT NULL,
            model TEXT,
            tokens_in INTEGER DEFAULT 0,
            tokens_out INTEGER DEFAULT 0,
            created_at TEXT NOT NULL DEFAULT (datetime('now')),
            FOREIGN KEY (conversation_id) REFERENCES conversations(id) ON DELETE CASCADE
        )"@,
        "CREATE INDEX IF NOT EXISTS idx_messages_conversation_id ON messages(conversation_id)"@,
        "CREATE INDEX IF NOT EXISTS idx_messages_created_at ON messages(created_at)"@,
    ]
}

/// The settings applied to every fresh connection, in order: foreign keys
/// first, so that cascade deletion works, then the performance settings.
pub open spec fn connection_pragma_statements() -> Seq<Seq<char>> {
    seq![
        "PRAGMA foreign_keys = ON;"@,
        "PRAGMA journal_mode = WAL;"@,
        "PRAGMA synchronous = NORMAL;"@,
        "PRAGMA cache_size = -64000;"@,
        "PRAGMA temp_store = MEMORY;"@,
        "PRAGMA mmap_size = 268435456;"@,
    ]
}

/// The ordered schema statements.
pub fn migrations() -> (r: Vec<&'static str>)
    ensures
        r@.len() == migration_statements().len(),
        forall|i: int| 0 <= i < r@.len() ==> r@[i]@ == migration_statements()[i],
{
    let mut v: Vec<&'static str> = Vec::new();
    v.push(
        "CREATE TABLE IF NOT EXISTS conversations (
            id TEXT PRIMARY KEY,
            title TEXT NOT NULL DEFAULT 'New Conversation',
            created_at TEXT NOT NULL DEFAULT (datetime('now')),
            updated_at TEXT NOT NULL DEFAULT (datetime('now'))
        )",
    );
    v.push("CREATE INDEX IF NOT EXISTS idx_conversations_updated_at ON conversations(updated_at)");
    v.push(
        "CREATE TABLE IF NOT EXISTS messages (
            id TEXT PRIMARY KEY,
            conversation_id TEXT NOT NULL,
            role TEXT NOT NULL CHECK (role IN ('user', 'assistant', 'system')),
            content TEXT NOT NULL,
            model TEXT,
            tokens_in INTEGER DEFAULT 0,
            tokens_out INTEGER DEFAULT 0,
            created_at TEXT NOT NULL DEFAULT (datetime('now')),
            FOREIGN KEY (conversation_id) REFERENCES conversations(id) ON DELETE CASCADE
        )",
    );
    v.push("CREATE INDEX IF NOT EXISTS idx_messages_conversation_id ON messages(conversation_id)");
    v.push("CREATE INDEX IF NOT EXISTS idx_messages_created_at ON messages(created_at)");
    v
}

/// The ordered per-connection settings.
pub fn connection_pragmas() -> (r: Vec<&'static str>)
    ensures
        r@.len() == connection_pragma_statements().len(),
        forall|i: int| 0 <= i < r@.len() ==> r@[i]@ == connection_pragma_statements()[i],
{
    let mut v: Vec<&'static str> = Vec::new();
    v.push("PRAGMA foreign_keys = ON;");
    v.push("PRAGMA journal_mode = WAL;");
    v.push("PRAGMA synchronous = NORMAL;");
    v.push("PRAGMA cache_size = -64000;");
    v.push("PRAGMA temp_store = MEMORY;");
    v.push("PRAGMA mmap_size = 268435456;");
    v
}

} // verus!
