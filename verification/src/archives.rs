//! The source resolver: expand one input path into renderable sources.
//!
//! A path that opens as an archive yields one in-memory source per kept
//! member, in the archive's own enumeration order, each under a synthetic
//! display path (the parent path joined with the member's internal name).
//! A path that is no archive yields exactly one source wrapping the path.
//! Driving the archive reader itself is the caller's concern; which
//! members are kept and what the resulting sources are is decided here.

use vstd::prelude::*;
use crate::images::Source;

verus! {

/// One archive member worth rendering: its internal name and its
/// contents, read into memory.
pub struct Entry {
    pub name: String,
    pub data: Vec<u8>,
}

/// One archive member as the reader enumerates it: the entry itself and
/// whether the archive marks it a regular file.
pub struct RawMember {
    pub entry: Entry,
    pub regular: bool,
}

/// The skip rule: an archive member becomes a source only if it is a
/// regular file with non-zero size.
pub open spec fn spec_keep_member(regular: bool, size: int) -> bool {
    regular && size > 0
}

/// Whether an archive member becomes a source; a caller enumerating an
/// archive may consult this before reading the member's contents, so
/// directories and empty entries are skipped without being read.
pub fn keep_member(regular: bool, size: u64) -> (b: bool)
    ensures
        b == spec_keep_member(regular, size as int),
{
    regular && size > 0
}

/// The members that survive the skip rule, in their enumeration order.
pub open spec fn spec_kept(s: Seq<RawMember>) -> Seq<RawMember>
    decreases s.len(),
{
    if s.len() == 0 {
        Seq::empty()
    } else if spec_keep_member(s[0].regular, s[0].entry.data@.len() as int) {
        seq![s[0]] + spec_kept(s.drop_first())
    } else {
        spec_kept(s.drop_first())
    }
}

proof fn lemma_kept_push(s: Seq<RawMember>, x: RawMember)
    ensures
        spec_kept(s.push(x)) == spec_kept(s) + (if spec_keep_member(
            x.regular,
            x.entry.data@.len() as int,
        ) {
            seq![x]
        } else {
            Seq::<RawMember>::empty()
        }),
    decreases s.len(),
{
    if s.len() == 0 {
        assert(s.push(x).len() == 1);
        assert(s.push(x)[0] == x);
        assert(s.push(x).drop_first() =~= Seq::<RawMember>::empty());
        assert(spec_kept(Seq::<RawMember>::empty()) =~= Seq::<RawMember>::empty());
        assert(spec_kept(s) =~= Seq::<RawMember>::empty());
        if spec_keep_member(x.regular, x.entry.data@.len() as int) {
            assert(spec_kept(s.push(x)) =~= spec_kept(s) + seq![x]);
        } else {
            assert(spec_kept(s.push(x)) =~= spec_kept(s));
            assert(spec_kept(s) + Seq::<RawMember>::empty() =~= spec_kept(s));
        }
    } else {
        assert(s.push(x)[0] == s[0]);
        assert(s.push(x).drop_first() =~= s.drop_first().push(x));
        lemma_kept_push(s.drop_first(), x);
        if spec_keep_member(x.regular, x.entry.data@.len() as int) {
            assert(spec_kept(s.push(x)) =~= spec_kept(s) + seq![x]);
        } else {
            assert(spec_kept(s.push(x)) =~= spec_kept(s));
            assert(spec_kept(s) + Seq::<RawMember>::empty() =~= spec_kept(s));
        }
    }
}

/// A member's display path: the member name itself if it is absolute,
/// otherwise the parent path and the name with exactly one separator
/// between them.
pub open spec fn spec_join(parent: Seq<char>, name: Seq<char>) -> Seq<char> {
    if name.len() > 0 && name[0] == '/' {
        name
    } else if parent.len() > 0 && parent[parent.len() - 1] == '/' {
        parent + name
    } else {
        parent + seq!['/'] + name
    }
}

/// Join a parent path with an archive member's internal name.
pub fn member_display_path(parent: &str, name: &str) -> (r: String)
    ensures
        r@ == spec_join(parent@, name@),
{
    let name_len = name.unicode_len();
    if name_len > 0 && name.get_char(0) == '/' {
        return name.to_owned();
    }
    let parent_len = parent.unicode_len();
    let mut r = parent.to_owned();
    if !(parent_len > 0 && parent.get_char(parent_len - 1) == '/') {
        r.append("/");
    }
    r.append(name);
    proof {
        reveal_strlit("/");
        assert(("/")@ =~= seq!['/']);
    }
    r
}

/// Resolve one input path: with no archive members (the path did not open
/// as an archive) the path itself is the single source; with members, one
/// in-memory source per member that survives the skip rule, in the
/// archive's enumeration order, each under its display path.
pub fn resolve(parent: &str, members: Option<Vec<RawMember>>) -> (srcs: Vec<Source>)
    ensures
        match members {
            None => srcs@.len() == 1 && (srcs@[0] matches Source::Path(p) && p@ == parent@),
            Some(ms) => ({
                let kept = spec_kept(ms@);
                &&& srcs@.len() == kept.len()
                &&& forall|i: int|
                    0 <= i < kept.len() ==> (#[trigger] srcs@[i] matches Source::Mem(d, p)
                        && d@ == kept[i].entry.data@ && p@ == spec_join(
                        parent@,
                        kept[i].entry.name@,
                    ))
            }),
        },
{
    match members {
        None => {
            let mut srcs: Vec<Source> = Vec::new();
            srcs.push(Source::Path(parent.to_owned()));
            srcs
        },
        Some(mut ms) => {
            let ghost orig = ms@;
            let mut srcs: Vec<Source> = Vec::new();
            let ghost done: int = 0;
            proof {
                assert(orig.take(0) =~= Seq::<RawMember>::empty());
            }
            while ms.len() > 0
                invariant
                    done == orig.len() - ms@.len(),
                    0 <= done <= orig.len(),
                    ms@ == orig.skip(done),
                    srcs@.len() == spec_kept(orig.take(done)).len(),
                    forall|i: int|
                        0 <= i < srcs@.len() ==> (#[trigger] srcs@[i] matches Source::Mem(d, p)
                            && d@ == spec_kept(orig.take(done))[i].entry.data@ && p@ == spec_join(
                            parent@,
                            spec_kept(orig.take(done))[i].entry.name@,
                        )),
                decreases ms@.len(),
            {
                proof {
                    assert(ms@[0] == orig[done]);
                    assert(orig.skip(done).remove(0) =~= orig.skip(done + 1));
                    assert(orig.take(done + 1) =~= orig.take(done).push(orig[done]));
                    lemma_kept_push(orig.take(done), orig[done]);
                }
                let m = ms.remove(0);
                let ghost mv = m;
                if keep_member(m.regular, m.entry.data.len() as u64) {
                    let p = member_display_path(parent, m.entry.name.as_str());
                    srcs.push(Source::Mem(m.entry.data, p));
                    proof {
                        assert(spec_kept(orig.take(done + 1)) =~= spec_kept(orig.take(done)).push(
                            mv,
                        ));
                    }
                } else {
                    proof {
                        assert(spec_kept(orig.take(done)) + Seq::<RawMember>::empty() =~= spec_kept(
                            orig.take(done),
                        ));
                    }
                }
                proof {
                    done = done + 1;
                }
            }
            proof {
                assert(orig.take(orig.len() as int) =~= orig);
            }
            srcs
        },
    }
}

} // verus!
