use vstd::prelude::*;
use crate::events::{event_type_of, project_event_type, ChangeKind};
use crate::text::chars_of;

verus! {

broadcast use vstd::seq_lib::group_to_multiset_ensures;

/// A file or directory of a directory listing; a directory's children are
/// listed one level deep, and only files have a size.
#[derive(Debug)]
pub struct FileEntry {
    pub name: String,
    pub path: String,
    pub is_dir: bool,
    pub is_file: bool,
    pub size: Option<i64>,
    pub children: Option<Vec<FileEntry>>,
}

/// What `str::to_lowercase` gives for the characters `s`.
pub uninterp spec fn lower_of(s: Seq<char>) -> Seq<char>;

/// Relies on str::to_lowercase: the lowercase form depends on the
/// characters alone, and the empty string stays empty.
#[verifier::external_body]
fn lowercase(s: &str) -> (r: String)
    ensures
        r@ == lower_of(s@),
        s@.len() == 0 ==> r@.len() == 0,
{
    s.to_lowercase()
}

/// Lexicographic order of character sequences, by code point: the order
/// of `str`'s comparison.
pub open spec fn lex_lt(a: Seq<char>, b: Seq<char>) -> bool
    decreases a.len(),
{
    if b.len() == 0 {
        false
    } else if a.len() == 0 {
        true
    } else if a[0] != b[0] {
        a[0] < b[0]
    } else {
        lex_lt(a.drop_first(), b.drop_first())
    }
}

proof fn lemma_lex_trans(a: Seq<char>, b: Seq<char>, c: Seq<char>)
    requires
        lex_lt(a, b),
        lex_lt(b, c),
    ensures
        lex_lt(a, c),
    decreases a.len(),
{
    if a.len() > 0 && a[0] == b[0] && b[0] == c[0] {
        lemma_lex_trans(a.drop_first(), b.drop_first(), c.drop_first());
    }
}

proof fn lemma_lex_total(a: Seq<char>, b: Seq<char>)
    ensures
        a == b || lex_lt(a, b) || lex_lt(b, a),
        !(lex_lt(a, b) && lex_lt(b, a)),
        !lex_lt(a, a),
    decreases a.len(),
{
    if a.len() > 0 && b.len() > 0 {
        lemma_lex_total(a.drop_first(), b.drop_first());
        lemma_lex_total(a.drop_first(), a.drop_first());
        if a[0] == b[0] && a.drop_first() == b.drop_first() {
            assert(a =~= seq![a[0]] + a.drop_first());
            assert(b =~= seq![b[0]] + b.drop_first());
        }
    } else if a.len() > 0 {
        lemma_lex_total(a.drop_first(), a.drop_first());
    } else if b.len() == 0 {
        assert(a =~= b);
    }
}

/// The order of a listing: directories before files, then by lowercase name.
pub open spec fn key_lt(a: (bool, Seq<char>), b: (bool, Seq<char>)) -> bool {
    (a.0 && !b.0) || (a.0 == b.0 && lex_lt(a.1, b.1))
}

pub open spec fn key_of(e: FileEntry) -> (bool, Seq<char>) {
    (e.is_dir, lower_of(e.name@))
}

pub open spec fn sorted_entries(s: Seq<FileEntry>) -> bool {
    forall|i: int, j: int| 0 <= i < j < s.len() ==> !key_lt(key_of(#[trigger] s[j]), key_of(#[trigger] s[i]))
}

proof fn lemma_key_le_trans(a: (bool, Seq<char>), b: (bool, Seq<char>), c: (bool, Seq<char>))
    requires
        !key_lt(b, a),
        !key_lt(c, b),
    ensures
        !key_lt(c, a),
{
    lemma_lex_total(a.1, b.1);
    lemma_lex_total(b.1, c.1);
    lemma_lex_total(a.1, c.1);
    if lex_lt(c.1, a.1) && a.0 == c.0 && b.0 == a.0 {
        if lex_lt(c.1, b.1) {
        } else if b.1 == c.1 {
        } else {
            lemma_lex_trans(b.1, c.1, a.1);
        }
    }
}

fn lex_lt_exec(a: &Vec<char>, b: &Vec<char>) -> (r: bool)
    ensures
        r == lex_lt(a@, b@),
{
    let mut i: usize = 0;
    proof {
        assert(a@.skip(0) =~= a@);
        assert(b@.skip(0) =~= b@);
    }
    while i < a.len() && i < b.len()
        invariant
            i <= a@.len(),
            i <= b@.len(),
            lex_lt(a@, b@) == lex_lt(a@.skip(i as int), b@.skip(i as int)),
        decreases a.len() - i,
    {
        if a[i] != b[i] {
            return a[i] < b[i];
        }
        proof {
            assert(a@.skip(i as int).drop_first() =~= a@.skip(i + 1));
            assert(b@.skip(i as int).drop_first() =~= b@.skip(i + 1));
        }
        i = i + 1;
    }
    i < b.len()
}

fn key_lt_exec(a: &(bool, Vec<char>), b: &(bool, Vec<char>)) -> (r: bool)
    ensures
        r == key_lt((a.0, a.1@), (b.0, b.1@)),
{
    (a.0 && !b.0) || (a.0 == b.0 && lex_lt_exec(&a.1, &b.1))
}

/// Orders a listing: directories first, then files, each by lowercase
/// name.
pub fn sort_entries(entries: Vec<FileEntry>) -> (r: Vec<FileEntry>)
    ensures
        r@.to_multiset() == entries@.to_multiset(),
        sorted_entries(r@),
{
    let ghost all = entries@;
    let mut rest = entries;
    let mut out: Vec<FileEntry> = Vec::new();
    let mut keys: Vec<(bool, Vec<char>)> = Vec::new();
    while rest.len() > 0
        invariant
            out@.to_multiset().add(rest@.to_multiset()) == all.to_multiset(),
            sorted_entries(out@),
            keys@.len() == out@.len(),
            forall|k: int| 0 <= k < keys@.len() ==> (#[trigger] keys@[k]).0 == out@[k].is_dir
                && keys@[k].1@ == lower_of(out@[k].name@),
        decreases rest.len(),
    {
        let ghost before = rest@;
        let e = rest.pop().unwrap();
        proof {
            assert(rest@ =~= before.remove(before.len() - 1));
        }
        let key = (e.is_dir, chars_of(lowercase(e.name.as_str()).as_str()));
        let mut p: usize = 0;
        assert(key_of(e) == (key.0, key.1@));
        while p < out.len() && key_lt_exec(&keys[p], &key)
            invariant
                p <= out@.len(),
                keys@.len() == out@.len(),
                forall|k: int| 0 <= k < keys@.len() ==> (#[trigger] keys@[k]).0 == out@[k].is_dir
                    && keys@[k].1@ == lower_of(out@[k].name@),
                forall|k: int| 0 <= k < p ==> key_lt(key_of(#[trigger] out@[k]), key_of(e)),
                key_of(e) == (key.0, key.1@),
            decreases out.len() - p,
        {
            assert(key_of(out@[p as int]) == (keys@[p as int].0, keys@[p as int].1@));
            p = p + 1;
        }
        let ghost old_out = out@;
        proof {
            if p < out.len() {
                assert(!key_lt(key_of(out@[p as int]), key_of(e)));
            }
        }
        out.insert(p, e);
        keys.insert(p, key);
        proof {
            assert forall|i: int, j: int| 0 <= i < j < out@.len() implies !key_lt(key_of(#[trigger] out@[j]), key_of(#[trigger] out@[i])) by {
                if j < p {
                    assert(out@[i] == old_out[i] && out@[j] == old_out[j]);
                } else if j == p {
                    assert(out@[i] == old_out[i]);
                    lemma_lex_total(key_of(old_out[i]).1, key_of(e).1);
                } else if i == p {
                    assert(out@[j] == old_out[j - 1]);
                    if j - 1 > p {
                        lemma_key_le_trans(key_of(e), key_of(old_out[p as int]), key_of(old_out[j - 1]));
                    }
                } else if i < p {
                    assert(out@[i] == old_out[i] && out@[j] == old_out[j - 1]);
                } else {
                    assert(out@[i] == old_out[i - 1] && out@[j] == old_out[j - 1]);
                }
            }
            assert forall|k: int| 0 <= k < keys@.len() implies (#[trigger] keys@[k]).0 == out@[k].is_dir
                && keys@[k].1@ == lower_of(out@[k].name@) by {
                if k < p {
                } else if k > p {
                    assert(out@[k] == old_out[k - 1]);
                }
            }
        }
    }
    out
}

/// A change in a watched project, reported as `create`, `modify` or `remove`.
#[derive(Debug)]
pub struct FileEvent {
    pub path: String,
    pub kind: String,
}

/// The event that a project watcher reports for a change, if any.
pub fn project_event(path: String, k: ChangeKind) -> (r: Option<FileEvent>)
    ensures
        r is Some <==> (k == ChangeKind::Create || k == ChangeKind::Modify || k == ChangeKind::Remove),
        r matches Some(ev) ==> ev.path == path && ev.kind@ == event_type_of(k),
{
    match project_event_type(k) {
        Some(kind) => Some(FileEvent { path, kind }),
        None => None,
    }
}

/// The entry of one file or directory, not expanded; only a file has a size.
pub fn file_entry(name: String, path: String, is_dir: bool, is_file: bool, len: i64) -> (r: FileEntry)
    ensures
        r.name == name && r.path == path && r.is_dir == is_dir && r.is_file == is_file,
        r.size == if is_file { Some(len) } else { None::<i64> },
        r.children is None,
{
    FileEntry { name, path, is_dir, is_file, size: if is_file { Some(len) } else { None }, children: None }
}

/// The entry of a directory with its children, put in listing order.
pub fn directory_entry(name: String, path: String, children: Vec<FileEntry>) -> (r: FileEntry)
    ensures
        r.name == name && r.path == path && r.is_dir && !r.is_file && r.size is None,
        r.children matches Some(c) && c@.to_multiset() == children@.to_multiset() && sorted_entries(c@),
{
    FileEntry { name, path, is_dir: true, is_file: false, size: None, children: Some(sort_entries(children)) }
}

} // verus!
