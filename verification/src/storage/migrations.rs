//! The database schema, as an ordered list of migrations, and the rules
//! that pick which of them a database still needs.
use vstd::prelude::*;

use crate::sync::protocol::{first_index_from, lemma_first_index_from_bounds};
use crate::text::{chars_of, parse_i64, parse_i64_spec, push_char};

verus! {

/// One step of the schema: its version, what it does, and its SQL.
pub struct Migration {
    pub version: i64,
    pub description: &'static str,
    pub sql: &'static str,
}

/// The versions of the schema's migrations, in order.
pub open spec fn migration_versions() -> Seq<i64> {
    seq![1i64, 2i64, 3i64]
}

/// The schema's migrations, in version order.
pub fn migrations() -> (r: Vec<Migration>)
    ensures
        r@.len() == migration_versions().len(),
        forall|i: int| 0 <= i < r@.len() ==> #[trigger] r@[i].version == migration_versions()[i],
{
    let mut r: Vec<Migration> = Vec::new();
    r.push(
        Migration {
            version: 1,
            description: "create notes folders tags note tags settings tables",
            sql: "CREATE TABLE notes (
    id                  TEXT PRIMARY KEY,
    folder_id           TEXT REFERENCES folders(id),
    title               TEXT NOT NULL DEFAULT 'Untitled',
    content_plaintext   TEXT NOT NULL DEFAULT '',
    content_loro_blob   BLOB NOT NULL DEFAULT (x''),
    content_hash        BLOB NOT NULL DEFAULT (x''),
    created_at          TEXT NOT NULL,
    updated_at          TEXT NOT NULL,
    is_deleted          INTEGER NOT NULL DEFAULT 0,
    deleted_at          TEXT,
    sort_order          INTEGER NOT NULL DEFAULT 0
);
CREATE TABLE folders (
    id          TEXT PRIMARY KEY,
    name        TEXT NOT NULL UNIQUE,
    sort_order  INTEGER NOT NULL DEFAULT 0,
    created_at  TEXT NOT NULL
);
CREATE TABLE tags (
    id      TEXT PRIMARY KEY,
    name    TEXT NOT NULL UNIQUE,
    color   TEXT
);
CREATE TABLE note_tags (
    note_id TEXT NOT NULL REFERENCES notes(id),
    tag_id  TEXT NOT NULL REFERENCES tags(id),
    PRIMARY KEY (note_id, tag_id)
);
CREATE TABLE settings (
    key     TEXT PRIMARY KEY,
    value   TEXT NOT NULL
);
CREATE VIRTUAL TABLE notes_fts USING fts5(
    title, content_plaintext
);",
        },
    );
    r.push(
        Migration {
            version: 2,
            description: "add note type",
            sql: "ALTER TABLE notes ADD COLUMN note_type TEXT NOT NULL DEFAULT 'markdown';",
        },
    );
    r.push(
        Migration {
            version: 3,
            description: "create pending sync",
            sql: "CREATE TABLE pending_sync (
    doc_id      TEXT PRIMARY KEY,
    note_type   TEXT NOT NULL,
    generation  INTEGER NOT NULL
);",
        },
    );
    r
}

/// Brings the schema of a database up to date and gives the version it
/// ends at.
pub fn run(conn: &rusqlite::Connection) -> (r: Result<i64, crate::error::StorageError>)
    ensures
        r matches Err(e) ==> e is Sqlite,
        exists|ms: Seq<Migration>, cs: Seq<crate::storage::sqlite::SqlCall>|
            crate::storage::sqlite::versions_of(ms) == migration_versions() && crate::storage::sqlite::run_made(ms, cs, r),
{
    let all = migrations();
    assert(crate::storage::sqlite::versions_of(all@) =~= migration_versions());
    crate::storage::sqlite::run(conn, all.as_slice())
}

/// The number of migrations in the schema.
pub fn migration_count() -> (n: usize)
    ensures
        n == migration_versions().len(),
{
    let all = migrations();
    all.len()
}

/// The number of leading positions in `ps` whose version is at most `v`:
/// where a migration of version `v` goes after them.
pub open spec fn first_above(vs: Seq<i64>, ps: Seq<int>, v: i64) -> int
    decreases ps.len(),
{
    if ps.len() == 0 {
        0
    } else if vs[ps[0]] > v {
        0
    } else {
        1 + first_above(vs, ps.drop_first(), v)
    }
}

/// The positions of the migrations that a database at schema version
/// `current` still needs, in increasing version order (migrations of equal
/// version in list order).
pub open spec fn pending_spec(current: i64, versions: Seq<i64>) -> Seq<int>
    decreases versions.len(),
{
    if versions.len() == 0 {
        seq![]
    } else {
        let rest = pending_spec(current, versions.drop_last());
        if versions.last() > current {
            rest.insert(first_above(versions, rest, versions.last()), versions.len() - 1)
        } else {
            rest
        }
    }
}

/// Whether position `a` comes before position `b` in version order, equal
/// versions in list order.
pub open spec fn version_before(vs: Seq<i64>, a: int, b: int) -> bool {
    vs[a] < vs[b] || (vs[a] == vs[b] && a < b)
}

proof fn lemma_first_above(vs: Seq<i64>, ps: Seq<int>, v: i64)
    ensures
        0 <= first_above(vs, ps, v) <= ps.len(),
        forall|j: int| 0 <= j < first_above(vs, ps, v) ==> vs[#[trigger] ps[j]] <= v,
        first_above(vs, ps, v) < ps.len() ==> vs[ps[first_above(vs, ps, v)]] > v,
    decreases ps.len(),
{
    if ps.len() > 0 && vs[ps[0]] <= v {
        let t = ps.drop_first();
        lemma_first_above(vs, t, v);
        assert forall|j: int| 0 <= j < first_above(vs, ps, v) implies vs[#[trigger] ps[j]] <= v by {
            if j > 0 {
                assert(ps[j] == t[j - 1]);
            }
        }
        if first_above(vs, ps, v) < ps.len() {
            assert(ps[first_above(vs, ps, v)] == t[first_above(vs, t, v)]);
        }
    }
}

proof fn lemma_first_above_agree(vs1: Seq<i64>, vs2: Seq<i64>, ps: Seq<int>, v: i64)
    requires
        forall|j: int| 0 <= j < ps.len() ==> 0 <= #[trigger] ps[j] < vs1.len() && ps[j] < vs2.len()
            && vs1[ps[j]] == vs2[ps[j]],
    ensures
        first_above(vs1, ps, v) == first_above(vs2, ps, v),
    decreases ps.len(),
{
    if ps.len() > 0 {
        let t = ps.drop_first();
        assert forall|j: int| 0 <= j < t.len() implies 0 <= #[trigger] t[j] < vs1.len() && t[j]
            < vs2.len() && vs1[t[j]] == vs2[t[j]] by {
            assert(t[j] == ps[j + 1]);
        }
        assert(ps[0] == ps[0]);
        lemma_first_above_agree(vs1, vs2, t, v);
    }
}

/// Every pending position is a position of the list whose version is above
/// `current`, and no position is pending twice.
pub proof fn lemma_pending_in_range(current: i64, versions: Seq<i64>)
    ensures
        forall|j: int| 0 <= j < pending_spec(current, versions).len() ==> 0 <= #[trigger] pending_spec(
            current,
            versions,
        )[j] < versions.len() && versions[pending_spec(current, versions)[j]] > current,
        forall|i: int, j: int|
            0 <= i < j < pending_spec(current, versions).len() ==> #[trigger] pending_spec(
                current,
                versions,
            )[i] != #[trigger] pending_spec(current, versions)[j],
    decreases versions.len(),
{
    if versions.len() > 0 {
        let vs0 = versions.drop_last();
        let rest = pending_spec(current, vs0);
        lemma_pending_in_range(current, vs0);
        let all = pending_spec(current, versions);
        let p = versions.len() - 1;
        if versions.last() > current {
            lemma_first_above(versions, rest, versions.last());
            let k = first_above(versions, rest, versions.last());
            assert forall|j: int| 0 <= j < all.len() implies 0 <= #[trigger] all[j] < versions.len()
                && versions[all[j]] > current by {
                if j < k {
                    assert(all[j] == rest[j]);
                    assert(vs0[rest[j]] == versions[rest[j]]);
                } else if j > k {
                    assert(all[j] == rest[j - 1]);
                    assert(vs0[rest[j - 1]] == versions[rest[j - 1]]);
                }
            }
            assert forall|i: int, j: int| 0 <= i < j < all.len() implies #[trigger] all[i]
                != #[trigger] all[j] by {
                if i < k && j < k {
                    assert(all[i] == rest[i] && all[j] == rest[j]);
                } else if i < k && j == k {
                    assert(all[i] == rest[i]);
                } else if i < k {
                    assert(all[i] == rest[i] && all[j] == rest[j - 1]);
                } else if i == k {
                    assert(all[j] == rest[j - 1]);
                } else {
                    assert(all[i] == rest[i - 1] && all[j] == rest[j - 1]);
                }
            }
        } else {
            assert forall|j: int| 0 <= j < all.len() implies 0 <= #[trigger] all[j] < versions.len()
                && versions[all[j]] > current by {
                assert(vs0[rest[j]] == versions[rest[j]]);
            }
        }
    }
}

/// The pending positions come in increasing version order, migrations of
/// equal version in list order.
pub proof fn lemma_pending_in_version_order(current: i64, versions: Seq<i64>)
    ensures
        forall|i: int, j: int|
            0 <= i < j < pending_spec(current, versions).len() ==> version_before(
                versions,
                #[trigger] pending_spec(current, versions)[i],
                #[trigger] pending_spec(current, versions)[j],
            ),
    decreases versions.len(),
{
    if versions.len() > 0 {
        let vs0 = versions.drop_last();
        let rest = pending_spec(current, vs0);
        lemma_pending_in_version_order(current, vs0);
        lemma_pending_in_range(current, vs0);
        let all = pending_spec(current, versions);
        let p = versions.len() - 1;
        let v = versions.last();
        assert forall|i: int, j: int| 0 <= i < j < rest.len() implies version_before(
            versions,
            #[trigger] rest[i],
            #[trigger] rest[j],
        ) by {
            assert(version_before(vs0, rest[i], rest[j]));
            assert(vs0[rest[i]] == versions[rest[i]] && vs0[rest[j]] == versions[rest[j]]);
        }
        if v > current {
            lemma_first_above(versions, rest, v);
            let k = first_above(versions, rest, v);
            assert forall|j: int| k <= j < rest.len() implies versions[#[trigger] rest[j]] > v by {
                if j > k {
                    assert(version_before(versions, rest[k], rest[j]));
                }
            }
            assert forall|i: int, j: int| 0 <= i < j < all.len() implies version_before(
                versions,
                #[trigger] all[i],
                #[trigger] all[j],
            ) by {
                if i < k && j < k {
                    assert(all[i] == rest[i] && all[j] == rest[j]);
                } else if i < k && j == k {
                    assert(all[i] == rest[i] && all[j] == p);
                } else if i < k {
                    assert(all[i] == rest[i] && all[j] == rest[j - 1]);
                } else if i == k {
                    assert(all[i] == p && all[j] == rest[j - 1]);
                } else {
                    assert(all[i] == rest[i - 1] && all[j] == rest[j - 1]);
                }
            }
        }
    }
}

/// Every migration whose version is above `current` is pending.
pub proof fn lemma_pending_complete(current: i64, versions: Seq<i64>)
    ensures
        forall|p: int|
            0 <= p < versions.len() && #[trigger] versions[p] > current ==> pending_spec(
                current,
                versions,
            ).contains(p),
    decreases versions.len(),
{
    if versions.len() > 0 {
        let vs0 = versions.drop_last();
        let rest = pending_spec(current, vs0);
        lemma_pending_complete(current, vs0);
        let all = pending_spec(current, versions);
        assert forall|p: int| 0 <= p < versions.len() && #[trigger] versions[p] > current implies all.contains(p) by {
            if versions.last() > current {
                lemma_first_above(versions, rest, versions.last());
                let k = first_above(versions, rest, versions.last());
                if p == versions.len() - 1 {
                    assert(all[k] == p);
                } else {
                    assert(vs0[p] == versions[p]);
                    let j = choose|j: int| 0 <= j < rest.len() && rest[j] == p;
                    if j < k {
                        assert(all[j] == p);
                    } else {
                        assert(all[j + 1] == p);
                    }
                }
            } else {
                assert(vs0[p] == versions[p]);
            }
        }
    }
}

/// A database at or above every migration's version needs none of them:
/// running the migrations again changes nothing.
pub proof fn lemma_nothing_pending_at_latest(current: i64, versions: Seq<i64>)
    requires
        forall|i: int| 0 <= i < versions.len() ==> #[trigger] versions[i] <= current,
    ensures
        pending_spec(current, versions).len() == 0,
{
    lemma_pending_in_range(current, versions);
    if pending_spec(current, versions).len() > 0 {
        let x = pending_spec(current, versions)[0];
        assert(versions[x] <= current);
    }
}

/// A new database needs every migration whose version is positive, in
/// increasing version order.
pub proof fn lemma_all_pending_when_new(versions: Seq<i64>)
    requires
        forall|i: int| 0 <= i < versions.len() ==> #[trigger] versions[i] > 0,
    ensures
        forall|p: int| 0 <= p < versions.len() ==> pending_spec(0, versions).contains(p),
        forall|i: int, j: int|
            0 <= i < j < pending_spec(0, versions).len() ==> version_before(
                versions,
                #[trigger] pending_spec(0, versions)[i],
                #[trigger] pending_spec(0, versions)[j],
            ),
{
    lemma_pending_complete(0, versions);
    lemma_pending_in_version_order(0, versions);
    assert forall|p: int| 0 <= p < versions.len() implies pending_spec(0, versions).contains(p) by {
        assert(versions[p] > 0);
    }
}

/// The positions of the migrations with a version above `current`, in
/// increasing version order.
pub fn pending_migrations(current: i64, all: &[Migration]) -> (r: Vec<usize>)
    ensures
        r@.map_values(|i: usize| i as int) == pending_spec(
            current,
            all@.map_values(|m: Migration| m.version),
        ),
{
    let ghost versions = all@.map_values(|m: Migration| m.version);
    let mut r: Vec<usize> = Vec::new();
    let mut i: usize = 0;
    while i < all.len()
        invariant
            i <= all@.len(),
            versions == all@.map_values(|m: Migration| m.version),
            r@.map_values(|k: usize| k as int) == pending_spec(current, versions.take(i as int)),
        decreases all@.len() - i,
    {
        let ghost vt = versions.take(i + 1);
        let ghost rest = pending_spec(current, versions.take(i as int));
        proof {
            assert(vt.drop_last() =~= versions.take(i as int));
            lemma_pending_in_range(current, versions.take(i as int));
        }
        let v = all[i].version;
        if v > current {
            let mut k: usize = 0;
            assert forall|j: int| 0 <= j < r@.len() implies (#[trigger] r@[j] as int) < i by {
                assert(rest[j] == r@[j] as int);
            }
            while k < r.len() && all[r[k]].version <= v
                invariant
                    k <= r@.len(),
                    rest == r@.map_values(|q: usize| q as int),
                    versions == all@.map_values(|m: Migration| m.version),
                    i < all@.len(),
                    forall|j: int| 0 <= j < rest.len() ==> 0 <= #[trigger] rest[j] < i,
                    forall|j: int| 0 <= j < r@.len() ==> (#[trigger] r@[j] as int) < i,
                    forall|j: int| 0 <= j < k ==> versions[#[trigger] rest[j]] <= v,
                    v == versions[i as int],
                decreases r@.len() - k,
            {
                assert(rest[k as int] == r@[k as int] as int);
                k = k + 1;
            }
            proof {
                assert forall|j: int| 0 <= j < rest.len() implies 0 <= #[trigger] rest[j] < vt.len()
                    && rest[j] < versions.len() && vt[rest[j]] == versions[rest[j]] by {}
                lemma_first_above_agree(vt, versions, rest, v);
                lemma_first_above_from(versions, rest, v, k as int);
                assert(vt.last() == v);
            }
            r.insert(k, i);
            assert(r@.map_values(|q: usize| q as int) =~= rest.insert(k as int, i as int));
        }
        i = i + 1;
    }
    assert(versions.take(all@.len() as int) =~= versions);
    r
}

proof fn lemma_first_above_from(vs: Seq<i64>, ps: Seq<int>, v: i64, k: int)
    requires
        0 <= k <= ps.len(),
        forall|j: int| 0 <= j < k ==> vs[#[trigger] ps[j]] <= v,
        k < ps.len() ==> vs[ps[k]] > v,
    ensures
        first_above(vs, ps, v) == k,
    decreases k,
{
    if k > 0 {
        let t = ps.drop_first();
        assert(vs[ps[0]] <= v);
        assert forall|j: int| 0 <= j < k - 1 implies vs[#[trigger] t[j]] <= v by {
            assert(t[j] == ps[j + 1]);
        }
        if k - 1 < t.len() {
            assert(t[k - 1] == ps[k]);
        }
        lemma_first_above_from(vs, t, v, k - 1);
    }
}

/// The version and description a migration file's name gives: the number
/// before the first `_`, and the rest with `_` read as spaces.
pub open spec fn migration_name_spec(stem: Seq<char>) -> Option<(i64, Seq<char>)> {
    let i = first_index_from(stem, '_', 0);
    match parse_i64_spec(stem.take(i)) {
        None => None,
        Some(v) => Some(
            (
                v,
                if i >= stem.len() {
                    seq![]
                } else {
                    stem.skip(i + 1).map_values(|c: char| if c == '_' { ' ' } else { c })
                },
            ),
        ),
    }
}

/// Reads a migration file's name (without its extension), such as
/// `002_add_note_type`.
pub fn parse_migration_name(stem: &str) -> (r: Option<(i64, String)>)
    ensures
        match r {
            Some((v, d)) => migration_name_spec(stem@) == Some((v, d@)),
            None => migration_name_spec(stem@) is None,
        },
{
    let cs = chars_of(stem);
    let len = cs.len();
    let mut i: usize = 0;
    while i < len && cs[i] != '_'
        invariant
            i <= len == cs@.len(),
            first_index_from(cs@, '_', 0) == first_index_from(cs@, '_', i as int),
        decreases len - i,
    {
        i = i + 1;
    }
    proof {
        lemma_first_index_from_bounds(cs@, '_', 0);
    }
    let digits = &cs.as_slice()[0..i];
    assert(digits@ =~= cs@.take(i as int));
    let version = match parse_i64(digits) {
        Some(v) => v,
        None => {
            return None;
        },
    };
    let mut description = String::new();
    if i < len {
        let ghost rest = cs@.skip(i + 1).map_values(|c: char| if c == '_' { ' ' } else { c });
        let mut k: usize = i + 1;
        while k < len
            invariant
                i < len == cs@.len(),
                i + 1 <= k <= len,
                rest == cs@.skip(i + 1).map_values(|c: char| if c == '_' { ' ' } else { c }),
                description@ == rest.take(k - (i + 1)),
            decreases len - k,
        {
            let c = cs[k];
            if c == '_' {
                push_char(&mut description, ' ');
            } else {
                push_char(&mut description, c);
            }
            k = k + 1;
            assert(description@ =~= rest.take(k - (i + 1)));
        }
        assert(rest.take(len - (i + 1)) =~= rest);
    } else {
        assert(description@ =~= Seq::<char>::empty());
    }
    Some((version, description))
}

/// Where the last `.` of a file name stands, or -1 when it has none.
pub open spec fn last_dot(s: Seq<char>) -> int
    decreases s.len(),
{
    if s.len() == 0 {
        -1
    } else if s.last() == '.' {
        s.len() - 1
    } else {
        last_dot(s.drop_last())
    }
}

/// Whether a file name has the extension `sql`, as `Path::extension` reads
/// it: what follows the last `.`, when that `.` is not the first character.
pub open spec fn is_sql_file(name: Seq<char>) -> bool {
    last_dot(name) > 0 && name.skip(last_dot(name) + 1) == "sql"@
}

/// A file name without its extension, as `Path::file_stem` gives it.
pub open spec fn file_stem_of(name: Seq<char>) -> Seq<char> {
    if last_dot(name) > 0 {
        name.take(last_dot(name))
    } else {
        name
    }
}

/// Whether file name `a` comes no later than `b`: their characters compared
/// in order, a prefix first.
pub open spec fn name_le(a: Seq<char>, b: Seq<char>) -> bool
    decreases a.len(),
{
    if a.len() == 0 {
        true
    } else if b.len() == 0 {
        false
    } else if a[0] != b[0] {
        a[0] < b[0]
    } else {
        name_le(a.drop_first(), b.drop_first())
    }
}

proof fn lemma_last_dot_bounds(s: Seq<char>)
    ensures
        -1 <= last_dot(s) < s.len(),
        last_dot(s) >= 0 ==> s[last_dot(s)] == '.',
        forall|k: int| last_dot(s) < k < s.len() ==> #[trigger] s[k] != '.',
    decreases s.len(),
{
    if s.len() > 0 && s.last() != '.' {
        lemma_last_dot_bounds(s.drop_last());
        assert forall|k: int| last_dot(s) < k < s.len() implies #[trigger] s[k] != '.' by {
            if k < s.len() - 1 {
                assert(s.drop_last()[k] == s[k]);
            }
        }
    }
}

proof fn lemma_name_le_total(a: Seq<char>, b: Seq<char>)
    ensures
        name_le(a, b) || name_le(b, a),
    decreases a.len(),
{
    if a.len() > 0 && b.len() > 0 && a[0] == b[0] {
        lemma_name_le_total(a.drop_first(), b.drop_first());
    }
}

proof fn lemma_name_le_trans(a: Seq<char>, b: Seq<char>, c: Seq<char>)
    requires
        name_le(a, b),
        name_le(b, c),
    ensures
        name_le(a, c),
    decreases a.len(),
{
    if a.len() > 0 && b.len() > 0 && c.len() > 0 && a[0] == b[0] && b[0] == c[0] {
        lemma_name_le_trans(a.drop_first(), b.drop_first(), c.drop_first());
    }
}

/// The position of the last `.` of a name, if it has one.
fn find_last_dot(cs: &Vec<char>) -> (r: Option<usize>)
    ensures
        match r {
            Some(k) => last_dot(cs@) == k && k < cs@.len(),
            None => last_dot(cs@) == -1,
        },
{
    proof {
        lemma_last_dot_bounds(cs@);
    }
    let mut k: usize = cs.len();
    while k > 0
        invariant
            k <= cs@.len(),
            forall|j: int| k <= j < cs@.len() ==> #[trigger] cs@[j] != '.',
            -1 <= last_dot(cs@) < cs@.len(),
            last_dot(cs@) >= 0 ==> cs@[last_dot(cs@)] == '.',
            forall|j: int| last_dot(cs@) < j < cs@.len() ==> #[trigger] cs@[j] != '.',
        decreases k,
    {
        if cs[k - 1] == '.' {
            return Some(k - 1);
        }
        k = k - 1;
    }
    None
}

/// Whether a file name has the extension `sql`.
pub fn is_migration_file(name: &str) -> (r: bool)
    ensures
        r == is_sql_file(name@),
{
    let cs = chars_of(name);
    proof {
        reveal_strlit("sql");
    }
    match find_last_dot(&cs) {
        Some(k) => {
            if k == 0 {
                return false;
            }
            let n = cs.len();
            let r = n - k == 4 && cs[k + 1] == 's' && cs[k + 2] == 'q' && cs[k + 3] == 'l';
            proof {
                let ext = cs@.skip(k + 1);
                assert(ext.len() == n - k - 1);
                if r {
                    assert(ext =~= "sql"@);
                } else if ext == "sql"@ {
                    assert(ext[0] == 's' && ext[1] == 'q' && ext[2] == 'l');
                }
            }
            r
        },
        None => false,
    }
}

/// A file name without its extension.
pub fn file_stem(name: &str) -> (r: String)
    ensures
        r@ == file_stem_of(name@),
{
    let cs = chars_of(name);
    match find_last_dot(&cs) {
        Some(k) => {
            if k > 0 {
                crate::text::string_of_range(&cs, 0, k)
            } else {
                crate::text::to_string(name)
            }
        },
        None => crate::text::to_string(name),
    }
}

fn name_le_exec(a: &Vec<char>, b: &Vec<char>) -> (r: bool)
    ensures
        r == name_le(a@, b@),
{
    let mut i: usize = 0;
    assert(a@.skip(0) =~= a@);
    assert(b@.skip(0) =~= b@);
    while i < a.len() && i < b.len() && a[i] == b[i]
        invariant
            i <= a@.len(),
            i <= b@.len(),
            name_le(a@, b@) == name_le(a@.skip(i as int), b@.skip(i as int)),
        decreases a@.len() - i,
    {
        proof {
            let sa = a@.skip(i as int);
            let sb = b@.skip(i as int);
            assert(sa.drop_first() =~= a@.skip(i + 1));
            assert(sb.drop_first() =~= b@.skip(i + 1));
        }
        i = i + 1;
    }
    let ghost sa = a@.skip(i as int);
    let ghost sb = b@.skip(i as int);
    if i == a.len() {
        assert(sa.len() == 0);
        true
    } else if i == b.len() {
        assert(sb.len() == 0);
        false
    } else {
        assert(sa[0] == a@[i as int] && sb[0] == b@[i as int]);
        a[i] < b[i]
    }
}

/// Whether names are in order, each no later than the next ones.
pub open spec fn names_sorted(s: Seq<Seq<char>>) -> bool {
    forall|i: int, j: int| 0 <= i < j < s.len() ==> name_le(#[trigger] s[i], #[trigger] s[j])
}

/// The names of the migration files among the files of a directory, in
/// order of their names.
pub fn migration_files(names: &[String]) -> (r: Vec<String>)
    ensures
        names_sorted(r@.map_values(|s: String| s@)),
        r@.map_values(|s: String| s@).to_multiset() == names@.map_values(|s: String| s@).filter(
            |n: Seq<char>| is_sql_file(n),
        ).to_multiset(),
{
    broadcast use vstd::seq_lib::group_to_multiset_ensures;

    let ghost all = names@.map_values(|s: String| s@);
    let ghost pick = |n: Seq<char>| is_sql_file(n);
    let mut r: Vec<String> = Vec::new();
    let mut i: usize = 0;
    while i < names.len()
        invariant
            i <= names@.len(),
            all == names@.map_values(|s: String| s@),
            pick == (|n: Seq<char>| is_sql_file(n)),
            names_sorted(r@.map_values(|s: String| s@)),
            r@.map_values(|s: String| s@).to_multiset() == all.take(i as int).filter(pick).to_multiset(),
        decreases names@.len() - i,
    {
        let name = &names[i];
        let ghost prev = r@.map_values(|s: String| s@);
        proof {
            assert(all.take(i + 1) =~= all.take(i as int).push(all[i as int]));
            all.take(i as int).lemma_filter_push(all[i as int], pick);
            assert(all[i as int] == name@);
        }
        let keep = is_migration_file(name.as_str());
        if keep {
            let cs = chars_of(name.as_str());
            let ghost before = r@.map_values(|s: String| s@);
            let mut pos: usize = 0;
            let mut stop = false;
            while pos < r.len() && !stop
                invariant
                    pos <= r@.len(),
                    before == r@.map_values(|s: String| s@),
                    names_sorted(before),
                    cs@ == name@,
                    forall|k: int| 0 <= k < pos ==> name_le(#[trigger] before[k], name@),
                    stop ==> pos < r@.len() && !name_le(before[pos as int], name@),
                decreases r@.len() - pos + (if stop { 0int } else { 1int }),
            {
                let other = chars_of(r[pos].as_str());
                if name_le_exec(&other, &cs) {
                    pos = pos + 1;
                } else {
                    stop = true;
                }
            }
            proof {
                let x = name@;
                if pos < before.len() {
                    lemma_name_le_total(before[pos as int], x);
                }
                let after = before.insert(pos as int, x);
                assert forall|a: int, b: int| 0 <= a < b < after.len() implies name_le(
                    #[trigger] after[a],
                    #[trigger] after[b],
                ) by {
                    if b < pos {
                        assert(after[a] == before[a] && after[b] == before[b]);
                    } else if b == pos {
                        assert(after[a] == before[a]);
                    } else if a < pos {
                        assert(after[a] == before[a] && after[b] == before[b - 1]);
                    } else if a == pos {
                        assert(after[b] == before[b - 1]);
                        if b - 1 > pos {
                            lemma_name_le_trans(x, before[pos as int], before[b - 1]);
                        }
                    } else {
                        assert(after[a] == before[a - 1] && after[b] == before[b - 1]);
                    }
                }
                vstd::seq_lib::to_multiset_insert(before, pos as int, x);
            }
            r.insert(pos, name.clone());
            assert(r@.map_values(|s: String| s@) =~= before.insert(pos as int, name@));
            assert(all.take(i + 1).filter(pick) == all.take(i as int).filter(pick).push(name@));
            proof {
                vstd::seq_lib::to_multiset_build(all.take(i as int).filter(pick), name@);
            }
            assert(all.take(i as int).filter(pick).push(name@).to_multiset() == all.take(
                i as int,
            ).filter(pick).to_multiset().insert(name@));
            assert(r@.map_values(|s: String| s@).to_multiset() == prev.to_multiset().insert(name@));
        } else {
            assert(all.take(i + 1).filter(pick) == all.take(i as int).filter(pick));
            assert(r@.map_values(|s: String| s@) == prev);
        }
        i = i + 1;
    }
    assert(all.take(names@.len() as int) =~= all);
    r
}

} // verus!
