use vstd::prelude::*;
use vstd::relations::sorted_by;
use vstd::string::StringExecFns;

use crate::codec::{decode_store, store_of_json};
use crate::ext;
use crate::json::JsonValue;
use crate::migrations::{apply_migrations, detect_version, detect_version_spec,
    migrate_v1_to_v2_spec};
use crate::store::{Store, CURRENT_VERSION};
use crate::text::{last_index_of, lex_leq, lemma_lex_leq_total, lemma_lex_leq_trans, find_last_char,
    str_leq};

verus! {

/// Failures of the durable storage layer. Paths and causes are carried as
/// plain strings.
#[derive(Debug)]
pub enum StorageError {
    /// The store file could not be read.
    LoadFailed { path: String, message: String },
    /// The store file could not be understood as a store document.
    ParseFailed { path: String, message: String },
    /// The store could not be written.
    SaveFailed { path: String, message: String },
    /// The store could not be serialized.
    SerializeFailed { message: String },
    /// The previous store file could not be copied aside.
    BackupFailed { path: String, message: String },
    /// Old backups could not be pruned.
    CleanupFailed { dir: String, message: String },
    /// The file was written by a newer schema version than this program
    /// understands.
    FutureVersion(u32),
    /// No migration is registered for a version in the file's range.
    UnsupportedVersion(u32),
}

/// A durable home for the store. The file-backed implementation lives with
/// the program around the library; lifecycle operations only require that
/// every mutation is handed to `save` before they report success.
pub trait Storage {
    /// Loads the whole store, or a fresh one if none was saved yet.
    fn load(&self) -> Result<Store, StorageError>;

    /// Persists the whole store.
    fn save(&self, store: &Store) -> Result<(), StorageError>;
}

/// What loading yields from a given migrated document: the decoded store,
/// or a parse failure.
pub open spec fn decoded_outcome(
    v: crate::json::JsonView,
    r: Result<Store, StorageError>,
) -> bool {
    &&& (store_of_json(v) matches Some(s) ==> (r matches Ok(st) && st@ == s))
    &&& (store_of_json(v) is None ==> r matches Err(StorageError::ParseFailed { .. }))
}

/// Turns a raw store document into the working store: an absent file is a
/// fresh store; a document from the future always fails; an older one is
/// migrated forward one version at a time before decoding. A future or
/// unsupported version never yields a partial store.
pub fn load_store(doc: Option<&JsonValue>, path: &str) -> (r: Result<Store, StorageError>)
    ensures
        doc is None ==> (r matches Ok(s) && s@.version == CURRENT_VERSION && s@.next_task_number
            == 1 && s@.tasks.len() == 0 && s@.projects.len() == 0 && s@.areas.len() == 0),
        doc matches Some(d) ==> ({
            let dv = detect_version_spec(d@);
            &&& (dv is None ==> r matches Err(StorageError::ParseFailed { .. }))
            &&& (dv matches Some(n) ==> {
                &&& (n > CURRENT_VERSION ==> (r matches Err(StorageError::FutureVersion(m)) && m
                    == n))
                &&& (n == CURRENT_VERSION ==> decoded_outcome(d@, r))
                &&& (n == 1 && CURRENT_VERSION == 2 ==> decoded_outcome(
                    migrate_v1_to_v2_spec(d@),
                    r,
                ))
                &&& ((n < CURRENT_VERSION && n != 1) ==> (r matches Err(
                    StorageError::UnsupportedVersion(m),
                ) && m == n))
            })
        }),
{
    let d = match doc {
        None => {
            return Ok(Store::default());
        },
        Some(d) => d,
    };
    let file_version = match detect_version(d) {
        Ok(v) => v,
        Err(e) => {
            return Err(e);
        },
    };
    if file_version > CURRENT_VERSION {
        return Err(StorageError::FutureVersion(file_version));
    }
    let migrated: JsonValue = if file_version < CURRENT_VERSION {
        match apply_migrations(d.clone(), file_version, CURRENT_VERSION) {
            Ok(x) => x,
            Err(e) => {
                return Err(e);
            },
        }
    } else {
        d.clone()
    };
    match decode_store(&migrated) {
        Some(s) => Ok(s),
        None => Err(
            StorageError::ParseFailed {
                path: path.to_owned(),
                message: "the file does not hold a complete store document".to_owned(),
            },
        ),
    }
}

/// Where the backups of a store file live: a `backups` directory beside
/// it.
pub open spec fn backup_dir_spec(p: Seq<char>) -> Seq<char> {
    let k = last_index_of(p, '/');
    if k < 0 {
        "backups"@
    } else {
        p.subrange(0, k) + "/backups"@
    }
}

/// The file-name part of a path: everything after the last separator.
pub open spec fn file_name_spec(p: Seq<char>) -> Seq<char> {
    p.subrange(last_index_of(p, '/') + 1, p.len() as int)
}

/// The name of one backup: the store file's name with a timestamp suffix,
/// inside the backup directory.
pub open spec fn backup_file_spec(p: Seq<char>, ts: Seq<char>) -> Seq<char> {
    backup_dir_spec(p) + "/"@ + file_name_spec(p) + "-"@ + ts
}

/// The home of one store file: the file's path and the layout of its
/// backups, temporary files and lock file. The file operations
/// themselves are performed by the program around the library.
#[derive(Debug)]
pub struct JsonFileStorage {
    /// The path of the store file.
    pub path: String,
}

impl JsonFileStorage {
    /// A storage layout rooted at the given store-file path.
    pub fn new(path: String) -> (r: Self)
        ensures
            r.path@ == path@,
    {
        JsonFileStorage { path }
    }

    /// The directory the backups live in: `backups` beside the store
    /// file.
    pub fn get_backup_dir(&self) -> (r: String)
        ensures
            r@ == backup_dir_spec(self.path@),
    {
        match find_last_char(self.path.as_str(), '/') {
            Some(k) => {
                let mut s = self.path.as_str().substring_char(0, k).to_owned();
                s.append("/backups");
                proof {
                    assert(s@ =~= backup_dir_spec(self.path@));
                }
                s
            },
            None => "backups".to_owned(),
        }
    }

    /// The path a backup taken at the given instant is written to.
    pub fn backup_path_at(&self, ts: &str) -> (r: String)
        ensures
            r@ == backup_file_spec(self.path@, ts@),
    {
        let mut s = self.get_backup_dir();
        s.append("/");
        let len = self.path.as_str().unicode_len();
        let k = match find_last_char(self.path.as_str(), '/') {
            Some(k) => {
                proof {
                    assert(k < len);
                }
                k + 1
            },
            None => 0,
        };
        let fname = self.path.as_str().substring_char(k, len);
        proof {
            assert(fname@ == self.path@.subrange(k as int, len as int));
            assert(k as int == last_index_of(self.path@, '/') + 1);
            assert(fname@ == file_name_spec(self.path@));
        }
        s.append(fname);
        s.append("-");
        s.append(ts);
        proof {
            assert(s@ =~= backup_file_spec(self.path@, ts@));
        }
        s
    }

    /// The path of the next backup, stamped with the clock's current
    /// instant.
    pub fn get_backup_path(&self) -> (r: String)
        ensures
            exists|ts: Seq<char>| r@ == #[trigger] backup_file_spec(self.path@, ts),
    {
        let ts = ext::now_timestamp();
        let r = self.backup_path_at(ts.as_str());
        proof {
            assert(r@ == backup_file_spec(self.path@, ts@));
        }
        r
    }

    /// A uniquely named temporary file beside the store file, for the
    /// write-then-rename step.
    pub fn temp_file_path(&self) -> (r: String)
        ensures
            exists|id: Seq<char>| r@ == self.path@ + ".tmp."@ + id,
    {
        let id = ext::fresh_id();
        let mut s = self.path.clone();
        s.append(".tmp.");
        s.append(id.as_str());
        proof {
            assert(s@ == self.path@ + ".tmp."@ + id@);
        }
        s
    }

    /// The sibling lock file that serializes concurrent saves: the store
    /// file's path with a `lock` extension.
    pub fn lock_file_path(&self) -> (r: String)
        ensures
            ({
                let name = file_name_spec(self.path@);
                let k = last_index_of(name, '.');
                &&& (k > 0 ==> r@ == self.path@.subrange(
                    0,
                    self.path@.len() - (name.len() - k),
                ) + ".lock"@)
                &&& (k <= 0 ==> r@ == self.path@ + ".lock"@)
            }),
    {
        let len = self.path.as_str().unicode_len();
        let start = match find_last_char(self.path.as_str(), '/') {
            Some(k) => {
                proof {
                    assert(k < len);
                }
                k + 1
            },
            None => 0,
        };
        let name = self.path.as_str().substring_char(start, len);
        proof {
            assert(name@ == self.path@.subrange(start as int, len as int));
            assert(start as int == last_index_of(self.path@, '/') + 1);
        }
        let cut: usize = match find_last_char(name, '.') {
            Some(k) => {
                if k > 0 {
                    start + k
                } else {
                    len
                }
            },
            None => len,
        };
        let mut s = self.path.as_str().substring_char(0, cut).to_owned();
        s.append(".lock");
        proof {
            assert(name@ =~= file_name_spec(self.path@));
            let kk = last_index_of(file_name_spec(self.path@), '.');
            if kk > 0 {
                assert(s@ =~= self.path@.subrange(
                    0,
                    self.path@.len() - (file_name_spec(self.path@).len() - kk),
                ) + ".lock"@);
            } else {
                assert(self.path@.subrange(0, cut as int) =~= self.path@);
                assert(s@ =~= self.path@ + ".lock"@);
            }
        }
        s
    }
}

/// The lexicographic order on names, as a relation.
pub open spec fn lex_leq_rel() -> spec_fn(Seq<char>, Seq<char>) -> bool {
    |a: Seq<char>, b: Seq<char>| lex_leq(a, b)
}

fn insert_sorted(v: &mut Vec<String>, x: String)
    requires
        sorted_by(old(v).deep_view(), lex_leq_rel()),
    ensures
        sorted_by(final(v).deep_view(), lex_leq_rel()),
        final(v).deep_view().to_multiset() == old(v).deep_view().to_multiset().insert(x@),
        final(v).deep_view().len() == old(v).deep_view().len() + 1,
{
    broadcast use vstd::seq_lib::group_to_multiset_ensures;

    let n = v.len();
    let mut i: usize = 0;
    while i < n && !str_leq(x.as_str(), v[i].as_str())
        invariant
            i <= n,
            n == v.len(),
            *v == *old(v),
            forall|k: int| 0 <= k < i ==> !lex_leq(x@, (#[trigger] v.deep_view()[k])),
        decreases n - i,
    {
        i += 1;
    }
    let ghost pre = v.deep_view();
    let ghost pos = i as int;
    proof {
        if pos < pre.len() {
            assert(lex_leq(x@, pre[pos]));
        }
    }
    v.insert(i, x);
    proof {
        assert(v.deep_view() =~= pre.subrange(0, pos).push(x@) + pre.subrange(
            pos,
            pre.len() as int,
        ));
        assert forall|a: int, b: int| 0 <= a < b < v.deep_view().len() implies lex_leq(
            #[trigger] v.deep_view()[a],
            #[trigger] v.deep_view()[b],
        ) by {
            let s2 = v.deep_view();
            assert(s2.len() == pre.len() + 1);
            assert(forall|k: int| 0 <= k < pos ==> #[trigger] s2[k] == pre[k]);
            assert(s2[pos] == x@);
            assert(forall|k: int| pos < k < s2.len() ==> #[trigger] s2[k] == pre[k - 1]);
            if b < pos {
                assert(lex_leq_rel()(pre[a], pre[b]));
            } else if a < pos && b == pos {
                lemma_lex_leq_total(x@, pre[a]);
            } else if a < pos && b > pos {
                if b - 1 == a {
                } else {
                    assert(lex_leq_rel()(pre[a], pre[b - 1]));
                }
            } else if a == pos && b > pos {
                if b - 1 == pos {
                } else {
                    assert(lex_leq_rel()(pre[pos], pre[b - 1]));
                    lemma_lex_leq_trans(x@, pre[pos], pre[b - 1]);
                }
            } else {
                assert(lex_leq_rel()(pre[a - 1], pre[b - 1]));
            }
        }
        assert(v.deep_view().to_multiset() =~= pre.to_multiset().insert(x@)) by {
            let left = pre.subrange(0, pos).push(x@);
            let right = pre.subrange(pos, pre.len() as int);
            vstd::seq_lib::lemma_multiset_commutative(left, right);
            vstd::seq_lib::lemma_multiset_commutative(pre.subrange(0, pos), right);
            assert(pre =~= pre.subrange(0, pos) + right);
        }
    }
}

/// The given names in lexicographic order.
pub fn sorted_names(names: &Vec<String>) -> (r: Vec<String>)
    ensures
        sorted_by(r.deep_view(), lex_leq_rel()),
        r.deep_view().to_multiset() == names.deep_view().to_multiset(),
        r.deep_view().len() == names.deep_view().len(),
{
    broadcast use vstd::seq_lib::group_to_multiset_ensures;

    let mut out: Vec<String> = Vec::new();
    let n = names.len();
    let mut i: usize = 0;
    proof {
        assert(out.deep_view() =~= Seq::<Seq<char>>::empty());
        assert(names.deep_view().subrange(0, 0) =~= Seq::<Seq<char>>::empty());
    }
    while i < n
        invariant
            i <= n,
            n == names.len(),
            sorted_by(out.deep_view(), lex_leq_rel()),
            out.deep_view().to_multiset() == names.deep_view().subrange(0, i as int).to_multiset(),
            out.deep_view().len() == i,
        decreases n - i,
    {
        let ghost pre = names.deep_view().subrange(0, i as int);
        insert_sorted(&mut out, names[i].clone());
        proof {
            assert(names.deep_view().subrange(0, i + 1) =~= pre.push(names.deep_view()[i as int]));
            pre.to_multiset_ensures();
            assert(pre.push(names.deep_view()[i as int]).to_multiset() =~= pre.to_multiset().insert(
                names.deep_view()[i as int],
            ));
        }
        i += 1;
    }
    proof {
        assert(names.deep_view().subrange(0, n as int) =~= names.deep_view());
    }
    out
}

/// The backups to prune after a save: all but the five lexicographically
/// greatest names — with timestamp-suffixed names, all but the five most
/// recent. The returned names are drawn from the given ones.
pub fn backups_to_delete(names: &Vec<String>) -> (r: Vec<String>)
    ensures
        exists|sorted: Seq<Seq<char>>|
            {
                &&& #[trigger] sorted_by(sorted, lex_leq_rel())
                &&& sorted.to_multiset() == names.deep_view().to_multiset()
                &&& sorted.len() == names.deep_view().len()
                &&& r.deep_view() == if sorted.len() > 5 {
                    sorted.subrange(0, sorted.len() - 5)
                } else {
                    Seq::<Seq<char>>::empty()
                }
            },
{
    let sorted = sorted_names(names);
    let ghost sorted_view = sorted.deep_view();
    let mut out: Vec<String> = Vec::new();
    if sorted.len() <= 5 {
        proof {
            assert(out.deep_view() =~= Seq::<Seq<char>>::empty());
        }
        return out;
    }
    let stop = sorted.len() - 5;
    let mut i: usize = 0;
    while i < stop
        invariant
            i <= stop,
            stop == sorted.len() - 5,
            sorted.deep_view() == sorted_view,
            sorted.len() == sorted_view.len(),
            out.deep_view() == sorted_view.subrange(0, i as int),
        decreases stop - i,
    {
        let ghost prev = out.deep_view();
        out.push(sorted[i].clone());
        proof {
            assert(out.deep_view() =~= prev.push(sorted_view[i as int]));
            assert(sorted_view.subrange(0, i + 1) =~= sorted_view.subrange(0, i as int).push(
                sorted_view[i as int],
            ));
        }
        i += 1;
    }
    out
}

/// Law: after pruning, exactly five backups remain, and they are the
/// lexicographically greatest names — with timestamp-suffixed names, the
/// five most recent. Every pruned name sits at or before every kept name
/// in lexicographic order.
pub proof fn lemma_backup_retention(sorted: Seq<Seq<char>>)
    requires
        sorted_by(sorted, lex_leq_rel()),
        sorted.len() > 5,
    ensures
        sorted.len() - sorted.subrange(0, sorted.len() - 5).len() == 5,
        forall|i: int, j: int|
            (0 <= i < sorted.len() - 5 && sorted.len() - 5 <= j < sorted.len()) ==> lex_leq(
                #[trigger] sorted[i],
                #[trigger] sorted[j],
            ),
{
    assert forall|i: int, j: int|
        (0 <= i < sorted.len() - 5 && sorted.len() - 5 <= j < sorted.len()) implies lex_leq(
        sorted[i],
        sorted[j],
    ) by {
        assert(lex_leq_rel()(sorted[i], sorted[j]));
    }
}

} // verus!
