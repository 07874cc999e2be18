use vstd::prelude::*;
use vstd::string::*;
use vstd::utf8::encode_utf8;

verus! {

/// Whether the text `s` ends with a path separator.
pub open spec fn ends_with_separator(s: Seq<char>) -> bool {
    let b = encode_utf8(s);
    b.len() > 0 && b.last() == 0x2f
}

/// `base` joined with the relative path `name`: a separator is put between
/// them unless `base` is empty or already ends with one.
pub open spec fn join_path(base: Seq<char>, name: Seq<char>) -> Seq<char> {
    if base.len() == 0 || ends_with_separator(base) {
        base + name
    } else {
        base + seq!['/'] + name
    }
}

fn join(base: &str, name: &str) -> (r: String)
    ensures
        r@ == join_path(base@, name@),
{
    let bytes = base.as_bytes();
    let n = bytes.len();
    let mut out = base.to_owned();
    proof {
        reveal_strlit("/");
    }
    if n > 0 && bytes[n - 1] == 0x2f {
        out.append(name);
    } else if base.is_empty() {
        out.append(name);
    } else {
        out.append("/");
        out.append(name);
    }
    proof {
        if base@.len() == 0 {
            assert(encode_utf8(base@).len() == 0);
        }
    }
    assert(out@ =~= join_path(base@, name@));
    out
}

/// Directory of the database files under the data directory.
pub fn get_database_dir_path(data_dir: &str) -> (r: String)
    ensures
        r@ == join_path(join_path(data_dir@, "src"@), "database"@),
{
    let src = join(data_dir, "src");
    join(src.as_str(), "database")
}

/// Path of the genesis document under the data directory.
pub fn get_genesis_json_file_path(data_dir: &str) -> (r: String)
    ensures
        r@ == join_path(data_dir@, "genesis.json"@),
{
    join(data_dir, "genesis.json")
}

/// Path of the ledger log under the data directory.
pub fn get_blocks_db_file_path(data_dir: &str) -> (r: String)
    ensures
        r@ == join_path(data_dir@, "block.db"@),
{
    join(data_dir, "block.db")
}

} // verus!
