pub mod category_repo;
pub mod db;
pub mod focus_repo;
pub mod migrations;
pub mod models;
pub mod settings_repo;
pub mod stats_repo;
pub mod task_query;
pub mod task_repo;

use vstd::prelude::*;

verus! {

/// The database file's path in a data directory.
pub fn db_path(data_dir: &str) -> (r: String)
    ensures
        r@ == data_dir@ + "/floatdo.db"@,
{
    crate::text::concat(data_dir, "/floatdo.db")
}

/// Opens the database in an existing data directory, in WAL mode with foreign keys
/// on, and brings its schema up to date.
pub fn init(data_dir: &str) -> (r: Result<rusqlite::Connection, String>)
    ensures
        r matches Err(e) ==> ("无法打开数据库 "@ + data_dir@ + "/floatdo.db: "@).is_prefix_of(e@)
            || "设置 WAL 模式失败: "@.is_prefix_of(e@) || "启用外键失败: "@.is_prefix_of(e@)
            || "数据库迁移失败: "@.is_prefix_of(e@) || "写入默认分类失败: "@.is_prefix_of(e@),
{
    let path = db_path(data_dir);
    let conn = match db::open(path.as_str()) {
        Ok(c) => c,
        Err(e) => {
            let prefix = crate::text::concat3("无法打开数据库 ", path.as_str(), ": ");
            assert(prefix@ == "无法打开数据库 "@ + data_dir@ + "/floatdo.db: "@) by {
                reveal_strlit("/floatdo.db");
                reveal_strlit(": ");
                reveal_strlit("/floatdo.db: ");
                assert(prefix@ =~= "无法打开数据库 "@ + data_dir@ + "/floatdo.db: "@);
            }
            return Err(db::prefixed(prefix.as_str(), e));
        },
    };
    match db::pragma_update(&conn, "journal_mode", "WAL") {
        Ok(()) => {},
        Err(e) => return Err(db::prefixed("设置 WAL 模式失败: ", e)),
    }
    match db::pragma_update(&conn, "foreign_keys", "ON") {
        Ok(()) => {},
        Err(e) => return Err(db::prefixed("启用外键失败: ", e)),
    }
    migrations::run(&conn)?;
    Ok(conn)
}

} // verus!
