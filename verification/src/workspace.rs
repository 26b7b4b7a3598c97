//! Workspace resolution: derives the compilation-unit key of a buffer (its
//! parent directory) and enumerates the member files of that unit.
//!
//! A workspace is every recognized-extension file of one directory, open or
//! on disk, with an open buffer's text taking precedence over the disk text
//! of the same path.  The member union — not a single file — is what the
//! external parser receives, so a query in one file may reference types
//! declared in a sibling file.
use vstd::prelude::*;

use crate::text::ends_with;
use crate::text::ends_with_lit;

verus! {

/// One member file of a workspace: its path and the text to analyze.
pub struct MemberFile {
    pub path: Vec<char>,
    pub content: Vec<char>,
}

/// The mathematical model of a member file.
pub ghost struct MemberView {
    pub path: Seq<char>,
    pub content: Seq<char>,
}

impl View for MemberFile {
    type V = MemberView;

    open spec fn view(&self) -> MemberView {
        MemberView { path: self.path@, content: self.content@ }
    }
}

/// The rightmost position of `'/'` in `s`, or `-1` when `s` holds none.
pub open spec fn last_slash(s: Seq<char>) -> int
    decreases s.len(),
{
    if s.len() == 0 {
        -1
    } else if s.last() == '/' {
        s.len() - 1
    } else {
        last_slash(s.drop_last())
    }
}

proof fn lemma_last_slash_unique(s: Seq<char>, j: int)
    requires
        -1 <= j < s.len(),
        j >= 0 ==> s[j] == '/',
        forall|t: int| j < t < s.len() ==> s[t] != '/',
    ensures
        last_slash(s) == j,
    decreases s.len(),
{
    if s.len() > 0 && s.last() != '/' {
        assert forall|t: int| j < t < s.drop_last().len() implies s.drop_last()[t] != '/' by {
            assert(s.drop_last()[t] == s[t]);
        }
        lemma_last_slash_unique(s.drop_last(), j);
    }
}

/// The workspace key of a path: the text before its last `'/'`, the root
/// directory staying `"/"`, and a path without a separator having the empty
/// key.
pub open spec fn parent_dir_spec(s: Seq<char>) -> Seq<char> {
    let j = last_slash(s);
    if j < 0 {
        Seq::empty()
    } else if j == 0 {
        seq!['/']
    } else {
        s.subrange(0, j)
    }
}

/// Derives the workspace key of a buffer path.
pub fn parent_dir(path: &Vec<char>) -> (r: Vec<char>)
    ensures
        r@ == parent_dir_spec(path@),
{
    let n = path.len();
    let mut i = n;
    while i > 0 && path[i - 1] != '/'
        invariant
            i <= n == path@.len(),
            forall|t: int| i <= t < n ==> path@[t] != '/',
        decreases i,
    {
        i -= 1;
    }
    if i == 0 {
        proof {
            lemma_last_slash_unique(path@, -1);
        }
        Vec::new()
    } else if i == 1 {
        proof {
            lemma_last_slash_unique(path@, 0);
        }
        let mut r = Vec::new();
        r.push('/');
        proof {
            assert(r@ =~= seq!['/']);
        }
        r
    } else {
        proof {
            lemma_last_slash_unique(path@, i - 1);
        }
        crate::text::span_to_vec(path, 0, i - 1)
    }
}

/// A recognized source path: one that ends in `.hx` or `.hql`.
pub open spec fn is_source_spec(p: Seq<char>) -> bool {
    ends_with(p, ".hx"@) || ends_with(p, ".hql"@)
}

/// Decides whether a path carries a recognized source extension.
pub fn is_source_path(path: &Vec<char>) -> (r: bool)
    ensures
        r == is_source_spec(path@),
{
    ends_with_lit(path, ".hx") || ends_with_lit(path, ".hql")
}

/// `p` belongs to the workspace with key `key`.
pub open spec fn is_member_path(p: Seq<char>, key: Seq<char>) -> bool {
    parent_dir_spec(p) == key && is_source_spec(p)
}

/// Some entry of `s` carries the path `p`.
pub open spec fn contains_path(s: Seq<MemberView>, p: Seq<char>) -> bool {
    exists|i: int| 0 <= i < s.len() && s[i].path == p
}

/// The open buffers that belong to the workspace, in store order.
pub open spec fn open_members(open: Seq<MemberView>, key: Seq<char>) -> Seq<MemberView>
    decreases open.len(),
{
    if open.len() == 0 {
        Seq::empty()
    } else {
        let rest = open_members(open.drop_last(), key);
        if is_member_path(open.last().path, key) {
            rest.push(open.last())
        } else {
            rest
        }
    }
}

/// The on-disk files that belong to the workspace and are not shadowed by
/// an open buffer, in listing order.
pub open spec fn disk_members(
    disk: Seq<MemberView>,
    open: Seq<MemberView>,
    key: Seq<char>,
) -> Seq<MemberView>
    decreases disk.len(),
{
    if disk.len() == 0 {
        Seq::empty()
    } else {
        let rest = disk_members(disk.drop_last(), open, key);
        if is_member_path(disk.last().path, key) && !contains_path(open, disk.last().path) {
            rest.push(disk.last())
        } else {
            rest
        }
    }
}

/// The member set of the workspace: the open members followed by the
/// unshadowed disk members.
pub open spec fn resolve_spec(
    open: Seq<MemberView>,
    disk: Seq<MemberView>,
    key: Seq<char>,
) -> Seq<MemberView> {
    open_members(open, key) + disk_members(disk, open, key)
}

/// No two entries of `s` carry the same path.
pub open spec fn distinct_paths(s: Seq<MemberView>) -> bool {
    forall|i: int, j: int| 0 <= i < j < s.len() ==> s[i].path != s[j].path
}

proof fn lemma_open_members_props(open: Seq<MemberView>, key: Seq<char>)
    ensures
        forall|i: int|
            0 <= i < open_members(open, key).len() ==> is_member_path(
                #[trigger] open_members(open, key)[i].path,
                key,
            ),
        forall|i: int|
            0 <= i < open_members(open, key).len() ==> exists|j: int|
                0 <= j < open.len() && open[j] == #[trigger] open_members(open, key)[i],
        forall|j: int|
            0 <= j < open.len() && is_member_path(#[trigger] open[j].path, key) ==> contains_path(
                open_members(open, key),
                open[j].path,
            ),
    decreases open.len(),
{
    if open.len() > 0 {
        lemma_open_members_props(open.drop_last(), key);
        let rest = open_members(open.drop_last(), key);
        let all = open_members(open, key);
        assert forall|i: int| 0 <= i < all.len() implies is_member_path(
            #[trigger] all[i].path,
            key,
        ) && exists|j: int| 0 <= j < open.len() && open[j] == all[i] by {
            if i < rest.len() {
                assert(all[i] == rest[i]);
                let j = choose|j: int|
                    0 <= j < open.drop_last().len() && open.drop_last()[j] == rest[i];
                assert(open[j] == all[i]);
            } else {
                assert(all[i] == open.last());
                assert(open[open.len() - 1] == all[i]);
            }
        }
        assert forall|j: int|
            0 <= j < open.len() && is_member_path(
                #[trigger] open[j].path,
                key,
            ) implies contains_path(all, open[j].path) by {
            if j < open.len() - 1 {
                assert(open.drop_last()[j] == open[j]);
                let i = choose|i: int| 0 <= i < rest.len() && rest[i].path == open[j].path;
                assert(all[i].path == open[j].path);
            } else {
                assert(all[all.len() - 1].path == open[j].path);
            }
        }
    }
}

proof fn lemma_open_members_distinct(open: Seq<MemberView>, key: Seq<char>)
    requires
        distinct_paths(open),
    ensures
        distinct_paths(open_members(open, key)),
        forall|p: Seq<char>|
            #[trigger] contains_path(open_members(open, key), p) <==> (exists|j: int|
                0 <= j < open.len() && open[j].path == p && is_member_path(p, key)),
    decreases open.len(),
{
    if open.len() > 0 {
        assert forall|i: int, j: int|
            0 <= i < j < open.drop_last().len() implies open.drop_last()[i].path
            != open.drop_last()[j].path by {
            assert(open[i].path != open[j].path);
        }
        lemma_open_members_distinct(open.drop_last(), key);
        lemma_open_members_props(open.drop_last(), key);
        let rest = open_members(open.drop_last(), key);
        let all = open_members(open, key);
        if is_member_path(open.last().path, key) {
            assert forall|i: int, j: int| 0 <= i < j < all.len() implies all[i].path
                != all[j].path by {
                if j == all.len() - 1 {
                    let jj = choose|jj: int|
                        0 <= jj < open.drop_last().len() && open.drop_last()[jj] == rest[i];
                    assert(open[jj] == rest[i]);
                    assert(open[jj].path != open[open.len() - 1].path);
                } else {
                    assert(rest[i].path != rest[j].path);
                }
            }
        }
        assert forall|p: Seq<char>| #[trigger] contains_path(all, p) implies (exists|j: int|
            0 <= j < open.len() && open[j].path == p && is_member_path(p, key)) by {
            let i = choose|i: int| 0 <= i < all.len() && all[i].path == p;
            if i < rest.len() {
                assert(contains_path(rest, p));
                let j = choose|j: int|
                    0 <= j < open.drop_last().len() && open.drop_last()[j].path == p
                        && is_member_path(p, key);
                assert(open[j].path == p && is_member_path(p, key));
            } else {
                assert(all[i] == open.last());
                assert(open[open.len() - 1].path == p && is_member_path(p, key));
            }
        }
        assert forall|p: Seq<char>|
            (exists|j: int|
                0 <= j < open.len() && open[j].path == p && is_member_path(
                    p,
                    key,
                )) implies #[trigger] contains_path(all, p) by {
            lemma_open_members_props(open, key);
            let j = choose|j: int|
                0 <= j < open.len() && open[j].path == p && is_member_path(p, key);
            assert(contains_path(all, open[j].path));
        }
    }
}

proof fn lemma_disk_members_props(disk: Seq<MemberView>, open: Seq<MemberView>, key: Seq<char>)
    ensures
        forall|i: int|
            0 <= i < disk_members(disk, open, key).len() ==> {
                let m = #[trigger] disk_members(disk, open, key)[i];
                is_member_path(m.path, key) && !contains_path(open, m.path) && exists|j: int|
                    0 <= j < disk.len() && disk[j] == m
            },
        forall|j: int|
            0 <= j < disk.len() && is_member_path(#[trigger] disk[j].path, key) && !contains_path(
                open,
                disk[j].path,
            ) ==> contains_path(disk_members(disk, open, key), disk[j].path),
    decreases disk.len(),
{
    if disk.len() > 0 {
        lemma_disk_members_props(disk.drop_last(), open, key);
        let rest = disk_members(disk.drop_last(), open, key);
        let all = disk_members(disk, open, key);
        assert forall|i: int| 0 <= i < all.len() implies {
            let m = #[trigger] all[i];
            is_member_path(m.path, key) && !contains_path(open, m.path) && exists|j: int|
                0 <= j < disk.len() && disk[j] == m
        } by {
            if i < rest.len() {
                assert(all[i] == rest[i]);
                let j = choose|j: int|
                    0 <= j < disk.drop_last().len() && disk.drop_last()[j] == rest[i];
                assert(disk[j] == all[i]);
            } else {
                assert(all[i] == disk.last());
                assert(disk[disk.len() - 1] == all[i]);
            }
        }
        assert forall|j: int|
            0 <= j < disk.len() && is_member_path(#[trigger] disk[j].path, key) && !contains_path(
                open,
                disk[j].path,
            ) implies contains_path(all, disk[j].path) by {
            if j < disk.len() - 1 {
                assert(disk.drop_last()[j] == disk[j]);
                let i = choose|i: int| 0 <= i < rest.len() && rest[i].path == disk[j].path;
                assert(all[i].path == disk[j].path);
            } else {
                assert(all[all.len() - 1].path == disk[j].path);
            }
        }
    }
}

proof fn lemma_disk_members_distinct(disk: Seq<MemberView>, open: Seq<MemberView>, key: Seq<char>)
    requires
        distinct_paths(disk),
    ensures
        distinct_paths(disk_members(disk, open, key)),
    decreases disk.len(),
{
    if disk.len() > 0 {
        assert forall|i: int, j: int|
            0 <= i < j < disk.drop_last().len() implies disk.drop_last()[i].path
            != disk.drop_last()[j].path by {
            assert(disk[i].path != disk[j].path);
        }
        lemma_disk_members_distinct(disk.drop_last(), open, key);
        lemma_disk_members_props(disk.drop_last(), open, key);
        let rest = disk_members(disk.drop_last(), open, key);
        let all = disk_members(disk, open, key);
        if is_member_path(disk.last().path, key) && !contains_path(open, disk.last().path) {
            assert forall|i: int, j: int| 0 <= i < j < all.len() implies all[i].path
                != all[j].path by {
                if j == all.len() - 1 {
                    let jj = choose|jj: int|
                        0 <= jj < disk.drop_last().len() && disk.drop_last()[jj] == rest[i];
                    assert(disk[jj] == rest[i]);
                    assert(disk[jj].path != disk[disk.len() - 1].path);
                } else {
                    assert(rest[i].path != rest[j].path);
                }
            }
        }
    }
}

/// The member set of a workspace is exactly its recognized-extension files,
/// open or on disk, each exactly once, and the text of a member that is
/// open is always its open-buffer text.
pub proof fn lemma_resolve_workspace_exact(
    open: Seq<MemberView>,
    disk: Seq<MemberView>,
    key: Seq<char>,
)
    requires
        distinct_paths(open),
        distinct_paths(disk),
    ensures
        forall|p: Seq<char>|
            #[trigger] contains_path(resolve_spec(open, disk, key), p) <==> (is_member_path(p, key)
                && (contains_path(open, p) || contains_path(disk, p))),
        distinct_paths(resolve_spec(open, disk, key)),
        forall|i: int, j: int|
            0 <= i < resolve_spec(open, disk, key).len() && 0 <= j < open.len()
                && #[trigger] resolve_spec(open, disk, key)[i].path == #[trigger] open[j].path
                ==> resolve_spec(open, disk, key)[i].content == open[j].content,
        forall|i: int, j: int|
            0 <= i < resolve_spec(open, disk, key).len() && 0 <= j < disk.len()
                && #[trigger] resolve_spec(open, disk, key)[i].path == #[trigger] disk[j].path
                && !contains_path(open, disk[j].path) ==> resolve_spec(open, disk, key)[i].content
                == disk[j].content,
{
    lemma_open_members_props(open, key);
    lemma_open_members_distinct(open, key);
    lemma_disk_members_props(disk, open, key);
    lemma_disk_members_distinct(disk, open, key);
    let om = open_members(open, key);
    let dm = disk_members(disk, open, key);
    let all = resolve_spec(open, disk, key);
    assert forall|p: Seq<char>| #[trigger] contains_path(all, p) implies (is_member_path(p, key)
        && (contains_path(open, p) || contains_path(disk, p))) by {
        let i = choose|i: int| 0 <= i < all.len() && all[i].path == p;
        if i < om.len() {
            assert(all[i] == om[i]);
            assert(contains_path(om, p));
        } else {
            assert(all[i] == dm[i - om.len()]);
            let j = choose|j: int| 0 <= j < disk.len() && disk[j] == dm[i - om.len()];
            assert(disk[j].path == p);
        }
    }
    assert forall|p: Seq<char>|
        (is_member_path(p, key) && (contains_path(open, p) || contains_path(
            disk,
            p,
        ))) implies #[trigger] contains_path(all, p) by {
        if contains_path(open, p) {
            let j = choose|j: int| 0 <= j < open.len() && open[j].path == p;
            assert(contains_path(om, p));
            let i = choose|i: int| 0 <= i < om.len() && om[i].path == p;
            assert(all[i].path == p);
        } else {
            let j = choose|j: int| 0 <= j < disk.len() && disk[j].path == p;
            assert(contains_path(dm, p));
            let i = choose|i: int| 0 <= i < dm.len() && dm[i].path == p;
            assert(all[om.len() + i].path == p);
        }
    }
    assert forall|i: int, j: int| 0 <= i < j < all.len() implies all[i].path != all[j].path by {
        if i < om.len() && j >= om.len() {
            assert(all[i] == om[i]);
            assert(all[j] == dm[j - om.len()]);
            let jj = choose|jj: int|
                0 <= jj < open.len() && open[jj] == om[i];
            if all[i].path == all[j].path {
                assert(contains_path(open, dm[j - om.len()].path));
            }
        } else if i >= om.len() {
            assert(all[i] == dm[i - om.len()]);
            assert(all[j] == dm[j - om.len()]);
        } else {
            assert(all[i] == om[i]);
            assert(all[j] == om[j]);
        }
    }
    assert forall|i: int, j: int|
        0 <= i < all.len() && 0 <= j < open.len() && #[trigger] all[i].path
            == #[trigger] open[j].path implies all[i].content == open[j].content by {
        if i < om.len() {
            let jj = choose|jj: int| 0 <= jj < open.len() && open[jj] == om[i];
            if jj != j {
                assert(open[if jj < j { jj } else { j }].path != open[if jj < j { j } else { jj }].path);
            }
        } else {
            assert(all[i] == dm[i - om.len()]);
            assert(!contains_path(open, all[i].path));
            assert(open[j].path == all[i].path);
        }
    }
    assert forall|i: int, j: int|
        0 <= i < all.len() && 0 <= j < disk.len() && #[trigger] all[i].path
            == #[trigger] disk[j].path && !contains_path(open, disk[j].path) implies all[i].content
        == disk[j].content by {
        if i < om.len() {
            let jj = choose|jj: int| 0 <= jj < open.len() && open[jj] == om[i];
            assert(contains_path(open, all[i].path));
        } else {
            let jj = choose|jj: int| 0 <= jj < disk.len() && disk[jj] == dm[i - om.len()];
            if jj != j {
                assert(disk[if jj < j { jj } else { j }].path != disk[if jj < j { j } else { jj }].path);
            }
        }
    }
}

/// Enumerates the member files of the workspace with key `key` from the
/// open buffers and a disk listing of that directory, open text shadowing
/// disk text for the same path.
pub fn resolve_workspace(
    key: &Vec<char>,
    open: &Vec<MemberFile>,
    disk: &Vec<MemberFile>,
) -> (r: Vec<MemberFile>)
    ensures
        r@.map_values(|m: MemberFile| m@) == resolve_spec(
            open@.map_values(|m: MemberFile| m@),
            disk@.map_values(|m: MemberFile| m@),
            key@,
        ),
{
    let ghost vopen = open@.map_values(|m: MemberFile| m@);
    let ghost vdisk = disk@.map_values(|m: MemberFile| m@);
    let mut r: Vec<MemberFile> = Vec::new();
    let n = open.len();
    let mut i: usize = 0;
    while i < n
        invariant
            i <= n == open@.len(),
            vopen == open@.map_values(|m: MemberFile| m@),
            r@.map_values(|m: MemberFile| m@) == open_members(
                vopen.subrange(0, i as int),
                key@,
            ),
        decreases n - i,
    {
        let dir = parent_dir(&open[i].path);
        if crate::text::chars_eq(&dir, key) && is_source_path(&open[i].path) {
            let m = MemberFile {
                path: crate::text::clone_chars(&open[i].path),
                content: crate::text::clone_chars(&open[i].content),
            };
            r.push(m);
        }
        proof {
            let prefix = vopen.subrange(0, i as int);
            let prefix1 = vopen.subrange(0, i + 1);
            assert(prefix1.drop_last() =~= prefix);
            assert(prefix1.last() == vopen[i as int]);
            assert(vopen[i as int] == open@[i as int]@);
            if is_member_path(vopen[i as int].path, key@) {
                assert(r@.map_values(|m: MemberFile| m@) =~= open_members(prefix, key@).push(
                    vopen[i as int],
                ));
            }
        }
        i += 1;
    }
    proof {
        assert(vopen.subrange(0, n as int) =~= vopen);
    }
    let dn = disk.len();
    let mut j: usize = 0;
    while j < dn
        invariant
            j <= dn == disk@.len(),
            n == open@.len(),
            vopen == open@.map_values(|m: MemberFile| m@),
            vdisk == disk@.map_values(|m: MemberFile| m@),
            r@.map_values(|m: MemberFile| m@) == open_members(vopen, key@) + disk_members(
                vdisk.subrange(0, j as int),
                vopen,
                key@,
            ),
        decreases dn - j,
    {
        let dir = parent_dir(&disk[j].path);
        if crate::text::chars_eq(&dir, key) && is_source_path(&disk[j].path) {
            // shadowed by an open buffer with the same path?
            let mut shadowed = false;
            let mut k: usize = 0;
            while k < n
                invariant
                    k <= n == open@.len(),
                    j < disk@.len(),
                    vopen == open@.map_values(|m: MemberFile| m@),
                    vdisk == disk@.map_values(|m: MemberFile| m@),
                    shadowed ==> contains_path(vopen, vdisk[j as int].path),
                    !shadowed ==> forall|t: int|
                        0 <= t < k ==> vopen[t].path != vdisk[j as int].path,
                decreases n - k,
            {
                if crate::text::chars_eq(&open[k].path, &disk[j].path) {
                    shadowed = true;
                    proof {
                        assert(vopen[k as int].path == vdisk[j as int].path);
                    }
                }
                k += 1;
            }
            if !shadowed {
                let m = MemberFile {
                    path: crate::text::clone_chars(&disk[j].path),
                    content: crate::text::clone_chars(&disk[j].content),
                };
                proof {
                    assert(m@ == vdisk[j as int]);
                }
                r.push(m);
                proof {
                    assert(r@.map_values(|mm: MemberFile| mm@) =~= (open_members(vopen, key@)
                        + disk_members(vdisk.subrange(0, j as int), vopen, key@)).push(
                        vdisk[j as int],
                    ));
                }
            }
        }
        proof {
            let prefix = vdisk.subrange(0, j as int);
            let prefix1 = vdisk.subrange(0, j + 1);
            assert(prefix1.drop_last() =~= prefix);
            assert(prefix1.last() == vdisk[j as int]);
            assert(vdisk[j as int] == disk@[j as int]@);
            if is_member_path(vdisk[j as int].path, key@) && !contains_path(
                vopen,
                vdisk[j as int].path,
            ) {
                assert(disk_members(prefix1, vopen, key@) == disk_members(prefix, vopen, key@).push(
                    vdisk[j as int],
                ));
                assert(open_members(vopen, key@) + disk_members(prefix, vopen, key@).push(
                    vdisk[j as int],
                ) =~= (open_members(vopen, key@) + disk_members(prefix, vopen, key@)).push(
                    vdisk[j as int],
                ));
            }
        }
        j += 1;
    }
    proof {
        assert(vdisk.subrange(0, dn as int) =~= vdisk);
    }
    r
}

} // verus!
