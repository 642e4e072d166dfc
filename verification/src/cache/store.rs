//! The `sled` database under the persistent cache: declarations of its types and
//! thin wrappers of the calls the cache makes.
//!
//! What a tree holds is named `tree_contents`. A tree handle shares its data with
//! every other handle to the same tree, so the cache keeps exactly one handle per
//! tree and changes a tree only through that handle, borrowed mutably.
use vstd::prelude::*;

verus! {

/// Declares `sled::Db`, an open database.
#[verifier::external_type_specification]
#[verifier::external_body]
pub struct ExDb(sled::Db);

/// Declares `sled::Tree`, a handle to one ordered map of the database.
#[verifier::external_type_specification]
#[verifier::external_body]
pub struct ExTree(sled::Tree);

/// What a tree holds: its keys and values.
pub uninterp spec fn tree_contents(t: sled::Tree) -> Map<Seq<u8>, Seq<u8>>;

/// Opens the database at `path` with a page cache of `cache_capacity` bytes that
/// is flushed every `flush_ms` milliseconds (`sled::Config::open`). On failure,
/// the error's message.
#[verifier::external_body]
pub(crate) fn open_db(path: &str, cache_capacity: u64, flush_ms: u64) -> (r: Result<sled::Db, String>) {
    sled::Config::default().path(path).cache_capacity(cache_capacity).flush_every_ms(Some(flush_ms))
        .open().map_err(|e| e.to_string())
}

/// Opens the tree `name` of the database (`Db::open_tree`). What it holds is what
/// was stored in it before, on disk, so nothing is stated of it.
#[verifier::external_body]
pub(crate) fn open_tree(db: &sled::Db, name: &str) -> (r: Result<sled::Tree, String>) {
    db.open_tree(name).map_err(|e| e.to_string())
}

/// The value of `key` (`Tree::get`). A success reports what the tree holds.
#[verifier::external_body]
pub(crate) fn tree_get(t: &sled::Tree, key: &[u8]) -> (r: Result<Option<Vec<u8>>, String>)
    ensures
        r matches Ok(v) ==> match v {
            Some(x) => tree_contents(*t).contains_key(key@) && tree_contents(*t)[key@] == x@,
            None => !tree_contents(*t).contains_key(key@),
        },
{
    t.get(key).map(|o| o.map(|v| v.to_vec())).map_err(|e| e.to_string())
}

/// Sets `key` to `value` (`Tree::insert`). After a success the tree holds the
/// new value and is otherwise unchanged. The change is one link of the key's
/// page, so after a failure the tree holds either what it held or the new value
/// (the link may have been made before writing the log failed).
#[verifier::external_body]
pub(crate) fn tree_insert(t: &mut sled::Tree, key: &[u8], value: &[u8]) -> (r: Result<(), String>)
    ensures
        r is Ok ==> tree_contents(*final(t)) == tree_contents(*old(t)).insert(key@, value@),
        tree_contents(*final(t)) == tree_contents(*old(t))
            || tree_contents(*final(t)) == tree_contents(*old(t)).insert(key@, value@),
{
    t.insert(key, value).map(|_| ()).map_err(|e| e.to_string())
}

/// Removes `key` (`Tree::remove`); tells whether it was there. After a success
/// the tree is otherwise unchanged. As with `tree_insert`, after a failure the
/// tree holds either what it held or that without `key`.
#[verifier::external_body]
pub(crate) fn tree_remove(t: &mut sled::Tree, key: &[u8]) -> (r: Result<bool, String>)
    ensures
        r matches Ok(b) ==> b == tree_contents(*old(t)).contains_key(key@)
            && tree_contents(*final(t)) == tree_contents(*old(t)).remove(key@),
        tree_contents(*final(t)) == tree_contents(*old(t))
            || tree_contents(*final(t)) == tree_contents(*old(t)).remove(key@),
{
    t.remove(key).map(|o| o.is_some()).map_err(|e| e.to_string())
}

/// Removes every key (`Tree::clear`). After a success the tree is empty; the
/// removal is not atomic, so a failure may leave part of it.
#[verifier::external_body]
pub(crate) fn tree_clear(t: &mut sled::Tree) -> (r: Result<(), String>)
    ensures
        r is Ok ==> tree_contents(*final(t)).dom() == Set::<Seq<u8>>::empty(),
{
    t.clear().map_err(|e| e.to_string())
}

/// Declares `sled::IVec`, the byte strings an iterator yields.
#[verifier::external_type_specification]
#[verifier::external_body]
pub struct ExIVec(sled::IVec);

/// Declares `sled::Error`, the error an iterator may yield.
#[verifier::external_type_specification]
#[verifier::external_body]
pub struct ExSledError(sled::Error);

/// Declares `sled::Iter`, an iterator over pairs of a tree.
#[verifier::external_type_specification]
#[verifier::external_body]
pub struct ExIter(sled::Iter);

/// The pairs an iterator has still to yield, in order.
pub uninterp spec fn iter_rest(it: sled::Iter) -> Seq<(Seq<u8>, Seq<u8>)>;

/// Whether `s` lists the pairs of `m` whose keys begin with `prefix`, each once.
pub open spec fn lists_prefixed(s: Seq<(Seq<u8>, Seq<u8>)>, m: Map<Seq<u8>, Seq<u8>>, prefix: Seq<u8>) -> bool {
    &&& forall|i: int| 0 <= i < s.len() ==> m.contains_key(#[trigger] s[i].0) && m[s[i].0] == s[i].1
        && prefix.is_prefix_of(s[i].0)
    &&& forall|k: Seq<u8>| m.contains_key(k) && prefix.is_prefix_of(k) ==> exists|i: int| 0 <= i < s.len() && #[trigger] s[i].0 == k
    &&& forall|i: int, j: int| 0 <= i < j < s.len() ==> s[i].0 != s[j].0
}

/// An iterator over the pairs of the tree in key order (`Tree::iter`): it yields
/// every pair once.
#[verifier::external_body]
fn tree_iter(t: &sled::Tree) -> (it: sled::Iter)
    ensures
        lists_prefixed(iter_rest(it), tree_contents(*t), Seq::empty()),
{
    t.iter()
}

/// An iterator over the pairs of the tree whose keys begin with `prefix`, in key
/// order (`Tree::scan_prefix`): it yields each of them once.
#[verifier::external_body]
fn tree_scan_prefix(t: &sled::Tree, prefix: &[u8]) -> (it: sled::Iter)
    ensures
        lists_prefixed(iter_rest(it), tree_contents(*t), prefix@),
{
    t.scan_prefix(prefix)
}

/// The next pair of the iterator (`Iter::next`): `None` at the end; a pair is the
/// first of those left, which are then the rest; nothing is stated after an error.
#[verifier::external_body]
fn iter_next(it: &mut sled::Iter) -> (r: Option<Result<(Vec<u8>, Vec<u8>), String>>)
    ensures
        r is None ==> iter_rest(*old(it)).len() == 0,
        r matches Some(Ok(p)) ==> iter_rest(*old(it)).len() > 0 && iter_rest(*old(it))[0] == (p.0@, p.1@)
            && iter_rest(*final(it)) == iter_rest(*old(it)).drop_first(),
{
    it.next().map(|item| item.map(|(k, v)| (k.to_vec(), v.to_vec())).map_err(|e| e.to_string()))
}

/// The views of listed pairs.
pub open spec fn pair_views(v: Seq<(Vec<u8>, Vec<u8>)>) -> Seq<(Seq<u8>, Seq<u8>)> {
    v.map_values(|p: (Vec<u8>, Vec<u8>)| (p.0@, p.1@))
}

/// Drains `it`, stopping at the first error.
fn drain(iter: sled::Iter) -> (r: Result<Vec<(Vec<u8>, Vec<u8>)>, String>)
    ensures
        r matches Ok(es) ==> pair_views(es@) == iter_rest(iter),
{
    let ghost all = iter_rest(iter);
    let mut it = iter;
    let mut out: Vec<(Vec<u8>, Vec<u8>)> = Vec::new();
    loop
        invariant
            all == iter_rest(iter),
            pair_views(out@) + iter_rest(it) == all,
        decreases iter_rest(it).len(),
    {
        let ghost before = iter_rest(it);
        match iter_next(&mut it) {
            None => {
                assert(pair_views(out@) =~= all);
                return Ok(out);
            },
            Some(Err(e)) => return Err(e),
            Some(Ok(p)) => {
                let ghost pv = (p.0@, p.1@);
                let ghost old_out = pair_views(out@);
                out.push(p);
                assert(pair_views(out@) =~= old_out.push(pv));
                assert(before =~= seq![pv] + iter_rest(it));
            },
        }
    }
}

/// The keys and values of the tree in key order (`Tree::iter`); fails on the
/// first error of the iteration. A success lists every pair once.
pub(crate) fn tree_entries(t: &sled::Tree) -> (r: Result<Vec<(Vec<u8>, Vec<u8>)>, String>)
    ensures
        r matches Ok(es) ==> {
            &&& forall|i: int| 0 <= i < es@.len() ==> tree_contents(*t).contains_key(#[trigger] es@[i].0@)
                && tree_contents(*t)[es@[i].0@] == es@[i].1@
            &&& forall|k: Seq<u8>| tree_contents(*t).contains_key(k) ==> exists|i: int| 0 <= i < es@.len() && #[trigger] es@[i].0@ == k
            &&& forall|i: int, j: int| 0 <= i < j < es@.len() ==> es@[i].0@ != es@[j].0@
        },
{
    let it = tree_iter(t);
    let ghost s = iter_rest(it);
    let r = drain(it);
    proof {
        if r is Ok {
            let es = r->Ok_0;
            let m = tree_contents(*t);
            assert forall|i: int| 0 <= i < es@.len() implies m.contains_key(#[trigger] es@[i].0@) && m[es@[i].0@] == es@[i].1@ by {
                assert(pair_views(es@)[i] == s[i]);
                assert(s[i].0 == es@[i].0@);
            }
            assert forall|k: Seq<u8>| m.contains_key(k) implies exists|i: int| 0 <= i < es@.len() && #[trigger] es@[i].0@ == k by {
                assert(Seq::<u8>::empty().is_prefix_of(k));
                let i = choose|i: int| 0 <= i < s.len() && #[trigger] s[i].0 == k;
                assert(pair_views(es@)[i] == s[i]);
            }
            assert forall|i: int, j: int| 0 <= i < j < es@.len() implies es@[i].0@ != es@[j].0@ by {
                assert(pair_views(es@)[i] == s[i]);
                assert(pair_views(es@)[j] == s[j]);
            }
        }
    }
    r
}

/// Whether `ks` lists the keys of `m` that begin with `prefix`, each once.
pub open spec fn prefix_listing(m: Map<Seq<u8>, Seq<u8>>, prefix: Seq<u8>, ks: Seq<Vec<u8>>) -> bool {
    &&& forall|i: int| 0 <= i < ks.len() ==> m.contains_key(#[trigger] ks[i]@) && prefix.is_prefix_of(ks[i]@)
    &&& forall|i: int, j: int| 0 <= i < j < ks.len() ==> ks[i]@ != ks[j]@
    &&& forall|k: Seq<u8>| m.contains_key(k) && prefix.is_prefix_of(k)
        ==> exists|i: int| 0 <= i < ks.len() && #[trigger] ks[i]@ == k
}

/// The keys that begin with `prefix`, in key order (`Tree::scan_prefix`): every
/// such key once; the error of the iteration when it reports one.
pub(crate) fn tree_prefix_keys(t: &sled::Tree, prefix: &[u8]) -> (r: Result<Vec<Vec<u8>>, String>)
    ensures
        r matches Ok(ks) ==> prefix_listing(tree_contents(*t), prefix@, ks@),
{
    let mut it = tree_scan_prefix(t, prefix);
    let ghost all = iter_rest(it);
    let ghost m = tree_contents(*t);
    let mut out: Vec<Vec<u8>> = Vec::new();
    loop
        invariant
            m == tree_contents(*t),
            lists_prefixed(all, m, prefix@),
            out@.len() <= all.len(),
            forall|i: int| 0 <= i < out@.len() ==> (#[trigger] out@[i])@ == all[i].0,
            iter_rest(it) == all.skip(out@.len() as int),
        decreases iter_rest(it).len(),
    {
        let ghost n: int = out@.len() as int;
        match iter_next(&mut it) {
            None => {
                proof {
                    assert(n == all.len());
                    assert forall|k: Seq<u8>| tree_contents(*t).contains_key(k) && prefix@.is_prefix_of(k)
                        implies exists|i: int| 0 <= i < out@.len() && #[trigger] out@[i]@ == k by {
                        assert(m.contains_key(k));
                        let i = choose|i: int| 0 <= i < all.len() && #[trigger] all[i].0 == k;
                        assert(out@[i]@ == all[i].0);
                    }
                    assert forall|i: int, j: int| 0 <= i < j < out@.len() implies out@[i]@ != out@[j]@ by {
                        assert(out@[i]@ == all[i].0);
                        assert(out@[j]@ == all[j].0);
                    }
                    assert forall|i: int| 0 <= i < out@.len() implies tree_contents(*t).contains_key(#[trigger] out@[i]@)
                        && prefix@.is_prefix_of(out@[i]@) by {
                        assert(out@[i]@ == all[i].0);
                    }
                    assert(prefix_listing(m, prefix@, out@));
                }
                return Ok(out);
            },
            Some(Err(e)) => {
                return Err(e);
            },
            Some(Ok(p)) => {
                proof {
                    assert(all.skip(n)[0] == all[n]);
                    assert(all.skip(n).drop_first() =~= all.skip(n + 1));
                }
                out.push(p.0);
            },
        }
    }
}

/// The size of the database on disk in bytes (`Db::size_on_disk`). It depends on
/// the disk, so nothing is stated of it.
#[verifier::external_body]
pub(crate) fn db_size_on_disk(db: &sled::Db) -> (r: Result<u64, String>) {
    db.size_on_disk().map_err(|e| e.to_string())
}

/// The number of keys of the database's default tree (`Db::len`). It depends on
/// the disk, so nothing is stated of it.
#[verifier::external_body]
pub(crate) fn db_len(db: &sled::Db) -> (n: usize) {
    db.len()
}

/// Writes buffered data to disk (`Db::flush`).
#[verifier::external_body]
pub(crate) fn db_flush(db: &sled::Db) -> (r: Result<(), String>) {
    db.flush().map(|_| ()).map_err(|e| e.to_string())
}

} // verus!
