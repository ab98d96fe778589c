use vstd::prelude::*;
use crate::engine::AnnotatedTag;
use crate::model::{CommitRecord, TagInfo};

verus! {

/// What a tag name resolves to, decided once per tag: its own tag object,
/// or a reference straight at a commit.
pub enum TagKind {
    Annotated(AnnotatedTag),
    Lightweight(CommitRecord),
}

/// The listed record of tag `name`. An annotated tag gives its own target,
/// message and tagger (empty identity and time zero when it names none); a
/// lightweight one gives its commit, an empty message, and the commit's
/// author and time.
pub open spec fn is_tag_info(name: String, kind: TagKind, r: TagInfo) -> bool {
    &&& r.name == name
    &&& match kind {
        TagKind::Annotated(a) => {
            &&& r.target_commit == a.target
            &&& r.message == a.message
            &&& match a.tagger {
                Some((n, e, t)) => r.tagger_name == n && r.tagger_email == e && r.tag_time == t,
                None => r.tagger_name@.len() == 0 && r.tagger_email@.len() == 0 && r.tag_time == 0,
            }
        },
        TagKind::Lightweight(c) => {
            &&& r.target_commit == c.id
            &&& r.message@.len() == 0
            &&& r.tagger_name == c.author_name
            &&& r.tagger_email == c.author_email
            &&& r.tag_time == c.author_time
        },
    }
}

pub fn tag_info(name: String, kind: TagKind) -> (r: TagInfo)
    ensures
        is_tag_info(name, kind, r),
{
    match kind {
        TagKind::Annotated(a) => {
            let (tagger_name, tagger_email, tag_time) = match a.tagger {
                Some((n, e, t)) => (n, e, t),
                None => (String::new(), String::new(), 0i64),
            };
            TagInfo { name, target_commit: a.target, message: a.message, tagger_name, tagger_email, tag_time }
        },
        TagKind::Lightweight(c) => TagInfo {
            name,
            target_commit: c.id,
            message: String::new(),
            tagger_name: c.author_name,
            tagger_email: c.author_email,
            tag_time: c.author_time,
        },
    }
}

/// The tags of `resolved` that lead to a commit, in order.
pub open spec fn kept_tags(resolved: Seq<(String, Option<TagKind>)>) -> Seq<(String, TagKind)>
    decreases resolved.len(),
{
    if resolved.len() == 0 {
        Seq::empty()
    } else {
        let prev = kept_tags(resolved.drop_last());
        match resolved.last().1 {
            Some(k) => prev.push((resolved.last().0, k)),
            None => prev,
        }
    }
}

/// `r` holds the record of each kept tag of `resolved`, in order.
pub open spec fn is_tag_listing(resolved: Seq<(String, Option<TagKind>)>, r: Seq<TagInfo>) -> bool {
    &&& r.len() == kept_tags(resolved).len()
    &&& forall|i: int|
        0 <= i < r.len() ==> is_tag_info(kept_tags(resolved)[i].0, kept_tags(resolved)[i].1, #[trigger] r[i])
}

/// The tag catalog from each tag name and what it resolved to: one record
/// per tag that leads to a commit, in name order; the others are skipped.
pub fn tag_listing(resolved: Vec<(String, Option<TagKind>)>) -> (r: Vec<TagInfo>)
    ensures
        is_tag_listing(resolved@, r@),
{
    let ghost all = resolved@;
    let mut rest = resolved;
    let mut out: Vec<TagInfo> = Vec::new();
    proof {
        assert(all.take(0) =~= Seq::<(String, Option<TagKind>)>::empty());
        assert(all.skip(0) =~= all);
    }
    while rest.len() > 0
        invariant
            rest@.len() <= all.len(),
            rest@ == all.skip(all.len() - rest@.len()),
            is_tag_listing(all.take(all.len() - rest@.len()), out@),
        decreases rest.len(),
    {
        let ghost n = all.len() - rest@.len();
        let (name, kind) = rest.remove(0);
        proof {
            assert(rest@ =~= all.skip(n + 1));
            assert(all[n] == (name, kind));
            lemma_tail_step(all, n + 1);
        }
        match kind {
            Some(k) => {
                let t = tag_info(name, k);
                out.push(t);
            },
            None => {},
        }
    }
    proof { assert(all.take(all.len() as int) =~= all); }
    out
}

proof fn lemma_kept_prefix(all: Seq<(String, Option<TagKind>)>, n: int)
    requires
        0 <= n <= all.len(),
    ensures
        kept_tags(all.take(n)).len() <= kept_tags(all).len(),
        forall|k: int| 0 <= k < kept_tags(all.take(n)).len() ==> #[trigger] kept_tags(all.take(n))[k] == kept_tags(all)[k],
    decreases all.len(),
{
    if n == all.len() {
        assert(all.take(n) =~= all);
    } else {
        let d = all.drop_last();
        assert(d.take(n) =~= all.take(n));
        lemma_kept_prefix(d, n);
    }
}

proof fn lemma_tail_step(all: Seq<(String, Option<TagKind>)>, n: int)
    requires
        0 < n <= all.len(),
    ensures
        kept_tags(all.take(n)) == match all[n - 1].1 {
            Some(k) => kept_tags(all.take(n - 1)).push((all[n - 1].0, k)),
            None => kept_tags(all.take(n - 1)),
        },
{
    assert(all.take(n).drop_last() =~= all.take(n - 1));
    lemma_kept_prefix(all, n);
}

} // verus!
