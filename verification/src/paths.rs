//! Where the application keeps its files.

use vstd::prelude::*;
use crate::text::chars_of;
use crate::text::push_text;

verus! {

/// The files and directories the application uses.
pub struct AppPaths {
    pub data_dir: String,
    pub db_path: String,
    pub backup_dir: String,
    pub attachments_dir: String,
}

/// `std::path::MAIN_SEPARATOR`, which its documentation gives as `/` on Unix
/// and `\` on Windows; which of the two the build has is not stated.
#[verifier::external_body]
fn main_separator() -> (c: char)
    ensures
        c == '/' || c == '\\',
{
    std::path::MAIN_SEPARATOR
}

/// `c` separates path components: `/` always, and the platform's own separator.
pub open spec fn is_separator(c: char, sep: char) -> bool {
    c == '/' || c == sep
}

/// A Windows path that is only a drive, such as `C:`.
pub open spec fn is_bare_drive(base: Seq<char>, sep: char) -> bool {
    &&& sep == '\\'
    &&& base.len() == 2
    &&& base[1] == ':'
    &&& (('a' as u32) <= (base[0] as u32) <= ('z' as u32) || ('A' as u32) <= (base[0] as u32) <= ('Z' as u32))
}

/// A Windows verbatim path, starting with `\\?\`; in it only `\` separates.
pub open spec fn is_verbatim(base: Seq<char>, sep: char) -> bool {
    &&& sep == '\\'
    &&& base.len() >= 4
    &&& base[0] == '\\'
    &&& base[1] == '\\'
    &&& base[2] == '?'
    &&& base[3] == '\\'
}

/// A Windows verbatim path that is only a drive, such as `\\?\C:`.
pub open spec fn is_bare_verbatim_drive(base: Seq<char>, sep: char) -> bool {
    &&& is_verbatim(base, sep)
    &&& base.len() == 6
    &&& is_bare_drive(base.skip(4), sep)
}

/// `base` ends in a separator: `/` or the platform's separator, or only `\`
/// in a verbatim path.
pub open spec fn ends_in_sep(base: Seq<char>, sep: char) -> bool {
    &&& base.len() > 0
    &&& if is_verbatim(base, sep) {
        base.last() == '\\'
    } else {
        is_separator(base.last(), sep)
    }
}

/// `name` starts with a Windows drive, such as `C:`.
pub open spec fn has_drive_prefix(name: Seq<char>, sep: char) -> bool {
    name.len() >= 2 && is_bare_drive(name.take(2), sep)
}

/// `name` starts with a separator: it has a root.
pub open spec fn starts_with_root(name: Seq<char>, sep: char) -> bool {
    name.len() > 0 && is_separator(name[0], sep)
}

/// The drive a Windows path starts with (empty when it starts with none).
pub open spec fn drive_of(base: Seq<char>, sep: char) -> Seq<char> {
    if has_drive_prefix(base, sep) {
        base.take(2)
    } else {
        Seq::empty()
    }
}

/// `base` joined with `name` as `PathBuf::join` documents it: a name with its
/// own drive, or (on Unix) a rooted name, replaces the base; on Windows a
/// rooted name keeps only the base's drive; otherwise a separator goes between
/// them unless `base` is empty, already ends in a separator, or is a bare drive
/// (plain or verbatim).  Not modelled: that std rebuilds a verbatim (`\\?\`)
/// base from its components, collapsing repeated separators in it and resolving
/// `.` and `..` in the name, and prefixes other than drives (UNC, verbatim) in
/// the base or the name.
pub open spec fn joined(base: Seq<char>, name: Seq<char>, sep: char) -> Seq<char> {
    if has_drive_prefix(name, sep) || (sep == '/' && starts_with_root(name, sep)) {
        name
    } else if starts_with_root(name, sep) {
        drive_of(base, sep) + name
    } else if base.len() == 0 || ends_in_sep(base, sep) || is_bare_drive(base, sep) || is_bare_verbatim_drive(
        base,
        sep,
    ) {
        base + name
    } else {
        base + seq![sep] + name
    }
}

/// `<home>/data`
pub open spec fn data_dir_of(home: Seq<char>, sep: char) -> Seq<char> {
    joined(home, seq!['d', 'a', 't', 'a'], sep)
}

/// `<home>/data/diary.db`
pub open spec fn db_path_of(home: Seq<char>, sep: char) -> Seq<char> {
    joined(data_dir_of(home, sep), seq!['d', 'i', 'a', 'r', 'y', '.', 'd', 'b'], sep)
}

/// `<home>/data/backups`
pub open spec fn backup_dir_of(home: Seq<char>, sep: char) -> Seq<char> {
    joined(data_dir_of(home, sep), seq!['b', 'a', 'c', 'k', 'u', 'p', 's'], sep)
}

/// `<home>/data/attachments`
pub open spec fn attachments_dir_of(home: Seq<char>, sep: char) -> Seq<char> {
    joined(data_dir_of(home, sep), seq!['a', 't', 't', 'a', 'c', 'h', 'm', 'e', 'n', 't', 's'], sep)
}

/// The layout under `home` when `sep` is the platform's separator.
pub open spec fn laid_out(p: AppPaths, home: Seq<char>, sep: char) -> bool {
    &&& p.data_dir@ == data_dir_of(home, sep)
    &&& p.db_path@ == db_path_of(home, sep)
    &&& p.backup_dir@ == backup_dir_of(home, sep)
    &&& p.attachments_dir@ == attachments_dir_of(home, sep)
}

fn verbatim(v: &Vec<char>, sep: char) -> (b: bool)
    ensures
        b == is_verbatim(v@, sep),
{
    sep == '\\' && v.len() >= 4 && v[0] == '\\' && v[1] == '\\' && v[2] == '?' && v[3] == '\\'
}

fn ends_in_separator(v: &Vec<char>, sep: char) -> (b: bool)
    ensures
        b == ends_in_sep(v@, sep),
{
    if v.len() == 0 {
        false
    } else {
        let c = v[v.len() - 1];
        if verbatim(v, sep) {
            c == '\\'
        } else {
            c == '/' || c == sep
        }
    }
}

fn bare_verbatim_drive(v: &Vec<char>, sep: char) -> (b: bool)
    ensures
        b == is_bare_verbatim_drive(v@, sep),
{
    if verbatim(v, sep) && v.len() == 6 && v[5] == ':' {
        let u = v[4] as u32;
        let r = (('a' as u32) <= u && u <= ('z' as u32)) || (('A' as u32) <= u && u <= ('Z' as u32));
        assert(v@.skip(4)[0] == v@[4] && v@.skip(4)[1] == v@[5]);
        r
    } else {
        proof {
            if v@.len() == 6 {
                assert(v@.skip(4)[1] == v@[5]);
            }
        }
        false
    }
}

fn bare_drive(v: &Vec<char>, sep: char) -> (b: bool)
    ensures
        b == is_bare_drive(v@, sep),
{
    if sep == '\\' && v.len() == 2 && v[1] == ':' {
        let u = v[0] as u32;
        (('a' as u32) <= u && u <= ('z' as u32)) || (('A' as u32) <= u && u <= ('Z' as u32))
    } else {
        false
    }
}

fn drive_prefixed(v: &Vec<char>, sep: char) -> (b: bool)
    ensures
        b == has_drive_prefix(v@, sep),
{
    if sep == '\\' && v.len() >= 2 && v[1] == ':' {
        let u = v[0] as u32;
        let r = (('a' as u32) <= u && u <= ('z' as u32)) || (('A' as u32) <= u && u <= ('Z' as u32));
        assert(v@.take(2)[0] == v@[0] && v@.take(2)[1] == v@[1]);
        r
    } else {
        proof {
            if v@.len() >= 2 {
                assert(v@.take(2)[1] == v@[1]);
            }
        }
        false
    }
}

/// Joins `name` to `base` as `joined` states.
pub fn join_with(base: &str, name: &str, sep: char) -> (r: String)
    ensures
        r@ == joined(base@, name@, sep),
{
    let v = chars_of(base);
    let w = chars_of(name);
    let rooted = w.len() > 0 && (w[0] == '/' || w[0] == sep);
    let mut out = String::new();
    if drive_prefixed(&w, sep) || (sep == '/' && rooted) {
        push_text(&mut out, name);
        proof {
            assert(Seq::<char>::empty() + name@ =~= name@);
        }
        return out;
    }
    if rooted {
        if drive_prefixed(&v, sep) {
            out.push(v[0]);
            out.push(v[1]);
        }
        push_text(&mut out, name);
        proof {
            assert(out@ =~= drive_of(base@, sep) + name@);
        }
        return out;
    }
    push_text(&mut out, base);
    if !(v.len() == 0 || ends_in_separator(&v, sep) || bare_drive(&v, sep) || bare_verbatim_drive(&v, sep)) {
        out.push(sep);
    }
    push_text(&mut out, name);
    proof {
        assert(Seq::<char>::empty() + base@ =~= base@);
    }
    out
}

/// The layout of `paths`, for a given separator.
pub fn paths_with_separator(home: &str, sep: char) -> (p: AppPaths)
    ensures
        laid_out(p, home@, sep),
{
    let data_dir = join_with(home, "data", sep);
    let db_path = join_with(data_dir.as_str(), "diary.db", sep);
    let backup_dir = join_with(data_dir.as_str(), "backups", sep);
    let attachments_dir = join_with(data_dir.as_str(), "attachments", sep);
    proof {
        reveal_strlit("data");
        reveal_strlit("diary.db");
        reveal_strlit("backups");
        reveal_strlit("attachments");
        assert("data"@ =~= seq!['d', 'a', 't', 'a']);
        assert("diary.db"@ =~= seq!['d', 'i', 'a', 'r', 'y', '.', 'd', 'b']);
        assert("backups"@ =~= seq!['b', 'a', 'c', 'k', 'u', 'p', 's']);
        assert("attachments"@ =~= seq!['a', 't', 't', 'a', 'c', 'h', 'm', 'e', 'n', 't', 's']);
    }
    AppPaths { data_dir, db_path, backup_dir, attachments_dir }
}

/// The application's files under its home directory `home`: `data`, and in it
/// `diary.db`, `backups` and `attachments`, joined with the platform's separator.
pub fn paths(home: &str) -> (p: AppPaths)
    ensures
        laid_out(p, home@, '/') || laid_out(p, home@, '\\'),
{
    let sep = main_separator();
    paths_with_separator(home, sep)
}

/// The application's home: `MYNOTE_HOME` when it is set, else the directory
/// of the executable, else the current directory `.`.
pub fn app_home(env_home: Option<String>, exe_dir: Option<String>) -> (home: String)
    ensures
        home@ == match env_home {
            Some(h) => h@,
            None => match exe_dir {
                Some(d) => d@,
                None => seq!['.'],
            },
        },
{
    match env_home {
        Some(h) => h,
        None => match exe_dir {
            Some(d) => d,
            None => {
                let mut s = String::new();
                s.push('.');
                s
            },
        },
    }
}

proof fn lemma_plain_word(name: Seq<char>, sep: char)
    requires
        sep == '/' || sep == '\\',
        name.len() >= 2,
        name[0] != '/' && name[0] != '\\',
        name[1] != ':',
    ensures
        !has_drive_prefix(name, sep),
        !starts_with_root(name, sep),
{
    assert(name.take(2)[1] == name[1]);
}

/// Every file of the application lies under its data directory, which lies
/// under its home: each path starts with the one it was joined to.
pub proof fn law_files_under_data_dir(home: Seq<char>, sep: char)
    requires
        sep == '/' || sep == '\\',
    ensures
        data_dir_of(home, sep).take(home.len() as int) == home,
        db_path_of(home, sep).take(data_dir_of(home, sep).len() as int) == data_dir_of(home, sep),
        backup_dir_of(home, sep).take(data_dir_of(home, sep).len() as int) == data_dir_of(home, sep),
        attachments_dir_of(home, sep).take(data_dir_of(home, sep).len() as int) == data_dir_of(
            home,
            sep,
        ),
{
    let d = data_dir_of(home, sep);
    lemma_plain_word(seq!['d', 'a', 't', 'a'], sep);
    lemma_plain_word(seq!['d', 'i', 'a', 'r', 'y', '.', 'd', 'b'], sep);
    lemma_plain_word(seq!['b', 'a', 'c', 'k', 'u', 'p', 's'], sep);
    lemma_plain_word(seq!['a', 't', 't', 'a', 'c', 'h', 'm', 'e', 'n', 't', 's'], sep);
    assert(joined(home, seq!['d', 'a', 't', 'a'], sep).take(home.len() as int) =~= home);
    assert(joined(d, seq!['d', 'i', 'a', 'r', 'y', '.', 'd', 'b'], sep).take(d.len() as int) =~= d);
    assert(joined(d, seq!['b', 'a', 'c', 'k', 'u', 'p', 's'], sep).take(d.len() as int) =~= d);
    assert(joined(d, seq!['a', 't', 't', 'a', 'c', 'h', 'm', 'e', 'n', 't', 's'], sep).take(
        d.len() as int,
    ) =~= d);
}

/// A single plain file name: not empty, not `.` or `..`, holding no `/` or
/// `\`, and not starting with a Windows drive such as `C:`, so that it is its
/// own final component on every platform.
pub open spec fn is_plain_name(s: Seq<char>) -> bool {
    &&& s.len() > 0
    &&& s != seq!['.']
    &&& s != seq!['.', '.']
    &&& !s.contains('/')
    &&& !s.contains('\\')
    &&& !has_drive_prefix(s, '\\')
}

/// A normal path component: not empty, and not `.` or `..`.
pub open spec fn is_normal_component(s: Seq<char>) -> bool {
    s.len() > 0 && s != seq!['.'] && s != seq!['.', '.']
}

/// A path starting with the Windows verbatim prefix `\\?\`.
pub open spec fn is_verbatim_text(s: Seq<char>) -> bool {
    s.len() >= 4 && s[0] == '\\' && s[1] == '\\' && s[2] == '?' && s[3] == '\\'
}

/// `n` stands somewhere in `s`, as a run of consecutive characters.
pub open spec fn occurs_in(n: Seq<char>, s: Seq<char>) -> bool {
    exists|i: int| 0 <= i && i + n.len() <= s.len() && #[trigger] s.subrange(i, i + n.len()) == n
}

/// `std::path::Path::file_name` on the request, converted to text.  Its
/// documentation gives it as the path's final component, a normal component
/// (never empty, `.` or `..`), and nothing when the path ends in `..`.  So: a
/// plain name is its own file name; a file name is a normal component taken
/// from the request, holding no `/` unless the request is a Windows verbatim
/// path (where only `\` separates).  Which characters separate otherwise, and
/// how Windows prefixes are read, differ between platforms and are not stated.
#[verifier::external_body]
fn file_name_of(path: &str) -> (r: Option<String>)
    ensures
        path@ == seq!['.', '.'] ==> r is None,
        is_plain_name(path@) ==> r is Some && r->Some_0@ == path@,
        r is Some ==> is_normal_component(r->Some_0@),
        r is Some ==> occurs_in(r->Some_0@, path@),
        r is Some ==> is_verbatim_text(path@) || !r->Some_0@.contains('/'),
{
    match std::path::Path::new(path).file_name() {
        Some(n) => Some(n.to_string_lossy().into_owned()),
        None => None,
    }
}

/// The message for a restore request that names no file.
pub open spec fn invalid_filename() -> Seq<char> {
    "invalid filename"@
}

/// Where a restore reads from, given the file name taken from the request:
/// that name inside the backup directory, or `invalid filename` when the
/// request names no file.
pub fn restore_source_from(backup_dir: &str, name: Option<String>, sep: char) -> (r: Result<String, String>)
    ensures
        name is None ==> (r matches Err(e) && e@ == invalid_filename()),
        name matches Some(n) ==> (r matches Ok(p) && p@ == joined(backup_dir@, n@, sep)),
{
    match name {
        Some(n) => Ok(join_with(backup_dir, n.as_str(), sep)),
        None => Err("invalid filename".to_owned()),
    }
}

/// What a restore may read for `filename`: the name `n`, inside the backup
/// directory, joined with either separator.
pub open spec fn restore_target(backup_dir: Seq<char>, n: Seq<char>, p: Seq<char>) -> bool {
    p == joined(backup_dir, n, '/') || p == joined(backup_dir, n, '\\')
}

/// Where a restore of `filename` reads from: only the request's final path
/// component is kept, inside the backup directory, so a restore never reads
/// from elsewhere; a plain file name is kept as it is; a request without a
/// file name (such as `..`) is refused with `invalid filename`.
pub fn restore_source(backup_dir: &str, filename: &str) -> (r: Result<String, String>)
    ensures
        is_plain_name(filename@) ==> (r matches Ok(p) && restore_target(backup_dir@, filename@, p@)),
        filename@ == seq!['.', '.'] ==> (r matches Err(e) && e@ == invalid_filename()),
        r matches Ok(p) ==> exists|n: Seq<char>|
            #![trigger restore_target(backup_dir@, n, p@)]
            is_normal_component(n) && occurs_in(n, filename@) && (!is_verbatim_text(filename@)
                ==> !n.contains('/')) && restore_target(backup_dir@, n, p@),
        r matches Err(e) ==> e@ == invalid_filename(),
{
    let sep = main_separator();
    let name = file_name_of(filename);
    let r = restore_source_from(backup_dir, name, sep);
    proof {
        if r is Ok {
            let n = name->Some_0;
            assert(r->Ok_0@ == joined(backup_dir@, n@, sep));
            assert(restore_target(backup_dir@, n@, r->Ok_0@));
        }
    }
    r
}

/// The write-ahead log and shared-memory files that SQLite keeps beside the
/// database: `<db>-wal` and `<db>-shm`.
pub fn sidecar_paths(db_path: &str) -> (r: (String, String))
    ensures
        r.0@ == db_path@ + seq!['-', 'w', 'a', 'l'],
        r.1@ == db_path@ + seq!['-', 's', 'h', 'm'],
{
    let mut wal = String::new();
    push_text(&mut wal, db_path);
    push_text(&mut wal, "-wal");
    let mut shm = String::new();
    push_text(&mut shm, db_path);
    push_text(&mut shm, "-shm");
    proof {
        reveal_strlit("-wal");
        reveal_strlit("-shm");
        assert(Seq::<char>::empty() + db_path@ =~= db_path@);
    }
    (wal, shm)
}

/// The name of a backup copy: `diary-<stamp>-<label>.db`.
pub fn backup_file_name(stamp: &str, label: &str) -> (name: String)
    ensures
        name@ == seq!['d', 'i', 'a', 'r', 'y', '-'] + stamp@ + seq!['-'] + label@ + seq!['.', 'd', 'b'],
{
    let mut name = String::new();
    push_text(&mut name, "diary-");
    push_text(&mut name, stamp);
    name.push('-');
    push_text(&mut name, label);
    push_text(&mut name, ".db");
    proof {
        reveal_strlit("diary-");
        reveal_strlit(".db");
        assert(name@ =~= seq!['d', 'i', 'a', 'r', 'y', '-'] + stamp@ + seq!['-'] + label@ + seq!['.', 'd', 'b']);
    }
    name
}

} // verus!
