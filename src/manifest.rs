//! In-place rewrite of the four identity attributes of a manifest text.
//!
//! An attribute assignment is one of the four attribute names, then `="`,
//! then one or more bytes other than `"`, then a closing `"`. The text is
//! scanned from left to right; at each position where an assignment starts,
//! the whole assignment is replaced and the scan continues after it, and
//! every other byte is copied unchanged.
use vstd::prelude::*;

verus! {

/// The byte `"`.
pub const QUOTE: u8 = 34;

/// The byte `=`.
pub const EQUALS: u8 = 61;

/// The four attributes that a build rewrites.
#[derive(Clone, Copy, Debug, PartialEq, Eq, Structural)]
pub enum AttrKind {
    Package,
    VersionCode,
    VersionName,
    Authorities,
}

/// The attribute's name, as it stands in the manifest.
pub open spec fn name_of(k: AttrKind) -> Seq<u8> {
    match k {
        AttrKind::Package => seq![112u8, 97, 99, 107, 97, 103, 101],
        AttrKind::VersionCode => android_prefix() + seq![
            118, 101, 114, 115, 105, 111, 110, 67, 111, 100, 101
        ],
        AttrKind::VersionName => android_prefix() + seq![
            118, 101, 114, 115, 105, 111, 110, 78, 97, 109, 101
        ],
        AttrKind::Authorities => android_prefix() + seq![
            97, 117, 116, 104, 111, 114, 105, 116, 105, 101, 115
        ],
    }
}

/// The namespace prefix `android:`.
pub open spec fn android_prefix() -> Seq<u8> {
    seq![97u8, 110, 100, 114, 111, 105, 100, 58]
}

/// The suffix that turns a package identifier into the authority of its
/// startup initializer: `.androidx-startup`.
pub open spec fn authority_suffix() -> Seq<u8> {
    seq![
        46u8, 97, 110, 100, 114, 111, 105, 100, 120, 45,
        115, 116, 97, 114, 116, 117, 112
    ]
}

/// Number of leading bytes of `s` that are not a quote.
pub open spec fn value_run(s: Seq<u8>) -> nat
    decreases s.len(),
{
    if s.len() == 0 || s[0] == QUOTE {
        0
    } else {
        1 + value_run(s.drop_first())
    }
}

/// Length of the assignment of attribute `k` at the start of `t`, if one
/// starts there.
pub open spec fn assignment_len(t: Seq<u8>, k: AttrKind) -> Option<nat> {
    let n = name_of(k);
    let p = n.len() + 2;
    if t.len() >= p && t.subrange(0, n.len() as int) == n && t[n.len() as int] == EQUALS
        && t[(n.len() + 1) as int] == QUOTE {
        let r = value_run(t.skip(p as int));
        if r >= 1 && p + r < t.len() {
            Some(p + r + 1)
        } else {
            None
        }
    } else {
        None
    }
}

/// The assignment that starts `t`, with its kind and length, if any.
pub open spec fn assignment_at(t: Seq<u8>) -> Option<(AttrKind, nat)> {
    if let Some(l) = assignment_len(t, AttrKind::Package) {
        Some((AttrKind::Package, l))
    } else if let Some(l) = assignment_len(t, AttrKind::VersionCode) {
        Some((AttrKind::VersionCode, l))
    } else if let Some(l) = assignment_len(t, AttrKind::VersionName) {
        Some((AttrKind::VersionName, l))
    } else if let Some(l) = assignment_len(t, AttrKind::Authorities) {
        Some((AttrKind::Authorities, l))
    } else {
        None
    }
}

/// The new value of attribute `k`.
pub open spec fn new_value(k: AttrKind, package: Seq<u8>, code: Seq<u8>, name: Seq<u8>) -> Seq<u8> {
    match k {
        AttrKind::Package => package,
        AttrKind::VersionCode => code,
        AttrKind::VersionName => name,
        AttrKind::Authorities => package + authority_suffix(),
    }
}

/// The assignment written in place of one of kind `k`.
pub open spec fn replacement(k: AttrKind, package: Seq<u8>, code: Seq<u8>, name: Seq<u8>) -> Seq<
    u8,
> {
    name_of(k) + seq![EQUALS, QUOTE] + new_value(k, package, code, name) + seq![QUOTE]
}

/// The manifest text `t` with every attribute assignment rewritten.
pub open spec fn patched(t: Seq<u8>, package: Seq<u8>, code: Seq<u8>, name: Seq<u8>) -> Seq<u8>
    decreases t.len(),
{
    if t.len() == 0 {
        Seq::empty()
    } else {
        match assignment_at(t) {
            Some((k, l)) => if 0 < l <= t.len() {
                replacement(k, package, code, name) + patched(t.skip(l as int), package, code, name)
            } else {
                Seq::empty()
            },
            None => seq![t[0]] + patched(t.skip(1), package, code, name),
        }
    }
}

/// `value_run` counts up to the first quote.
proof fn lemma_value_run(s: Seq<u8>, r: nat)
    requires
        r <= s.len(),
        forall|m: int| 0 <= m < r ==> s[m] != QUOTE,
        r == s.len() || s[r as int] == QUOTE,
    ensures
        value_run(s) == r,
    decreases r,
{
    if r > 0 {
        lemma_value_run(s.drop_first(), (r - 1) as nat);
    }
}

/// An assignment that starts `t` lies within `t` and is not empty.
proof fn lemma_assignment_bounds(t: Seq<u8>)
    ensures
        assignment_at(t) matches Some((k, l)) ==> 0 < l <= t.len() && assignment_len(t, k) == Some(l),
{
}

/// One step of `patched` where an assignment starts the text.
proof fn lemma_patched_assignment(t: Seq<u8>, package: Seq<u8>, code: Seq<u8>, name: Seq<u8>)
    requires
        assignment_at(t) is Some,
    ensures
        assignment_at(t) matches Some((k, l)) ==> patched(t, package, code, name) == replacement(
            k,
            package,
            code,
            name,
        ) + patched(t.skip(l as int), package, code, name),
{
    lemma_assignment_bounds(t);
}

/// One step of `patched` where no assignment starts the text.
proof fn lemma_patched_plain(t: Seq<u8>, package: Seq<u8>, code: Seq<u8>, name: Seq<u8>)
    requires
        t.len() > 0,
        assignment_at(t) is None,
    ensures
        patched(t, package, code, name) == seq![t[0]] + patched(t.skip(1), package, code, name),
{
}

/// A text in which no attribute assignment starts comes out of the
/// rewrite unchanged.
pub proof fn lemma_patch_keeps_plain_text(t: Seq<u8>, package: Seq<u8>, code: Seq<u8>, name: Seq<u8>)
    requires
        forall|j: int| 0 <= j < t.len() ==> #[trigger] assignment_at(t.skip(j)) is None,
    ensures
        patched(t, package, code, name) == t,
    decreases t.len(),
{
    if t.len() > 0 {
        assert(t.skip(0) =~= t);
        assert forall|j: int| 0 <= j < t.skip(1).len() implies #[trigger] assignment_at(
            t.skip(1).skip(j),
        ) is None by {
            assert(t.skip(1).skip(j) =~= t.skip(j + 1));
        }
        lemma_patch_keeps_plain_text(t.skip(1), package, code, name);
        assert(seq![t[0]] + t.skip(1) =~= t);
    }
}

/// The rewrite is local: where an assignment `a` of kind `k` follows a
/// text `pre` in which no assignment starts, the result is `pre`
/// unchanged, the new assignment, and the rewrite of what follows `a`.
pub proof fn lemma_patch_is_local(
    pre: Seq<u8>,
    a: Seq<u8>,
    rest: Seq<u8>,
    k: AttrKind,
    package: Seq<u8>,
    code: Seq<u8>,
    name: Seq<u8>,
)
    requires
        forall|j: int| 0 <= j < pre.len() ==> #[trigger] assignment_at((pre + a + rest).skip(j)) is None,
        assignment_at(a + rest) == Some((k, a.len())),
    ensures
        patched(pre + a + rest, package, code, name) == pre + replacement(k, package, code, name)
            + patched(rest, package, code, name),
    decreases pre.len(),
{
    let t = pre + a + rest;
    if pre.len() == 0 {
        assert(t =~= a + rest);
        lemma_assignment_bounds(a + rest);
        assert((a + rest).skip(a.len() as int) =~= rest);
        lemma_patched_assignment(a + rest, package, code, name);
        assert(pre + replacement(k, package, code, name) =~= replacement(k, package, code, name));
    } else {
        let tail = pre.drop_first();
        assert(t.skip(0) =~= t);
        assert(t.skip(1) =~= tail + a + rest);
        assert forall|j: int| 0 <= j < tail.len() implies #[trigger] assignment_at(
            (tail + a + rest).skip(j),
        ) is None by {
            assert((tail + a + rest).skip(j) =~= t.skip(j + 1));
        }
        lemma_patch_is_local(tail, a, rest, k, package, code, name);
        lemma_patched_plain(t, package, code, name);
        assert(t[0] == pre[0]);
        assert(seq![pre[0]] + (tail + replacement(k, package, code, name) + patched(
            rest,
            package,
            code,
            name,
        )) =~= pre + replacement(k, package, code, name) + patched(rest, package, code, name));
    }
}

/// The bytes of an attribute's name.
fn name_bytes(k: AttrKind) -> (r: Vec<u8>)
    ensures
        r@ == name_of(k),
{
    let r = match k {
        AttrKind::Package => vec![112u8, 97, 99, 107, 97, 103, 101],
        AttrKind::VersionCode => vec![
            97, 110, 100, 114, 111, 105, 100, 58,
            118, 101, 114, 115, 105, 111, 110, 67, 111, 100, 101
        ],
        AttrKind::VersionName => vec![
            97, 110, 100, 114, 111, 105, 100, 58,
            118, 101, 114, 115, 105, 111, 110, 78, 97, 109, 101
        ],
        AttrKind::Authorities => vec![
            97, 110, 100, 114, 111, 105, 100, 58,
            97, 117, 116, 104, 111, 114, 105, 116, 105, 101, 115
        ],
    };
    assert(r@ =~= name_of(k));
    r
}

/// Length of the assignment of attribute `k` that starts at `text[i]`.
fn match_assignment(text: &Vec<u8>, i: usize, k: AttrKind) -> (r: Option<usize>)
    requires
        i <= text@.len(),
    ensures
        r matches Some(l) ==> assignment_len(text@.skip(i as int), k) == Some(l as nat),
        r is None ==> assignment_len(text@.skip(i as int), k) is None,
{
    let ghost t = text@.skip(i as int);
    let name = name_bytes(k);
    let n = name.len();
    let rest = text.len() - i;
    if rest < n + 2 {
        return None;
    }
    let mut j: usize = 0;
    while j < n
        invariant
            j <= n,
            i <= text@.len(),
            n == name@.len(),
            name@ == name_of(k),
            n + 2 <= rest,
            i + rest == text@.len(),
            text@.len() == text.len(),
            t == text@.skip(i as int),
            forall|m: int| 0 <= m < j ==> t[m] == name@[m],
        decreases n - j,
    {
        if text[i + j] != name[j] {
            assert(t[j as int] == text@[i + j]);
            assert(t.subrange(0, n as int)[j as int] != name@[j as int]);
            assert(t.subrange(0, n as int) != name@);
            return None;
        }
        j = j + 1;
    }
    assert(t.subrange(0, n as int) =~= name@);
    assert(t[n as int] == text@[i + n]);
    assert(t[n + 1] == text@[i + n + 1]);
    if text[i + n] != EQUALS || text[i + n + 1] != QUOTE {
        return None;
    }
    let p = n + 2;
    let mut e: usize = i + p;
    while e < text.len() && text[e] != QUOTE
        invariant
            i + p <= e <= text@.len(),
            forall|m: int| i + p <= m < e ==> text@[m] != QUOTE,
        decreases text@.len() - e,
    {
        e = e + 1;
    }
    let r = e - (i + p);
    proof {
        let s = t.skip(p as int);
        assert forall|m: int| 0 <= m < r implies s[m] != QUOTE by {
            assert(s[m] == text@[i + p + m]);
        }
        if e < text.len() {
            assert(s[r as int] == text@[e as int]);
        }
        lemma_value_run(s, r as nat);
    }
    if r >= 1 && e < text.len() {
        Some(p + r + 1)
    } else {
        None
    }
}

/// The assignment that starts at `text[i]`, with its kind and length.
fn find_assignment(text: &Vec<u8>, i: usize) -> (r: Option<(AttrKind, usize)>)
    requires
        i <= text@.len(),
    ensures
        r matches Some((k, l)) ==> assignment_at(text@.skip(i as int)) == Some((k, l as nat)),
        r is None ==> assignment_at(text@.skip(i as int)) is None,
{
    if let Some(l) = match_assignment(text, i, AttrKind::Package) {
        return Some((AttrKind::Package, l));
    }
    if let Some(l) = match_assignment(text, i, AttrKind::VersionCode) {
        return Some((AttrKind::VersionCode, l));
    }
    if let Some(l) = match_assignment(text, i, AttrKind::VersionName) {
        return Some((AttrKind::VersionName, l));
    }
    if let Some(l) = match_assignment(text, i, AttrKind::Authorities) {
        return Some((AttrKind::Authorities, l));
    }
    None
}

/// Appends the bytes of `s` to `out`.
fn push_all(out: &mut Vec<u8>, s: &[u8])
    ensures
        final(out)@ == old(out)@ + s@,
{
    let mut j: usize = 0;
    while j < s.len()
        invariant
            j <= s@.len(),
            out@ == old(out)@ + s@.subrange(0, j as int),
        decreases s@.len() - j,
    {
        out.push(s[j]);
        j = j + 1;
        assert(out@ =~= old(out)@ + s@.subrange(0, j as int));
    }
    assert(s@.subrange(0, j as int) =~= s@);
}

/// Appends the assignment written in place of one of kind `k`.
fn push_replacement(out: &mut Vec<u8>, k: AttrKind, package: &[u8], code: &[u8], name: &[u8])
    ensures
        final(out)@ == old(out)@ + replacement(k, package@, code@, name@),
{
    let attr = name_bytes(k);
    push_all(out, attr.as_slice());
    out.push(EQUALS);
    out.push(QUOTE);
    match k {
        AttrKind::Package => push_all(out, package),
        AttrKind::VersionCode => push_all(out, code),
        AttrKind::VersionName => push_all(out, name),
        AttrKind::Authorities => {
            push_all(out, package);
            let suffix = vec![
                46, 97, 110, 100, 114, 111, 105, 100, 120, 45,
                115, 116, 97, 114, 116, 117, 112
            ];
            assert(suffix@ =~= authority_suffix());
            push_all(out, suffix.as_slice());
        },
    }
    out.push(QUOTE);
    assert(out@ =~= old(out)@ + replacement(k, package@, code@, name@));
}

/// Rewrites every attribute assignment of the manifest text `text`: the
/// package identifier, the version code, the version name, and the
/// authority, which becomes the package identifier with the startup
/// suffix. All other bytes are kept.
pub fn patch_manifest(text: &Vec<u8>, package: &[u8], code: &[u8], name: &[u8]) -> (r: Vec<u8>)
    ensures
        r@ == patched(text@, package@, code@, name@),
{
    let mut out: Vec<u8> = Vec::new();
    let mut i: usize = 0;
    assert(text@.skip(0) =~= text@);
    assert(out@ + patched(text@, package@, code@, name@) =~= patched(text@, package@, code@, name@));
    while i < text.len()
        invariant
            i <= text@.len(),
            patched(text@, package@, code@, name@) == out@ + patched(
                text@.skip(i as int),
                package@,
                code@,
                name@,
            ),
        decreases text@.len() - i,
    {
        let ghost t = text@.skip(i as int);
        let ghost before = out@;
        let ghost old_i = i;
        proof {
            lemma_assignment_bounds(t);
        }
        match find_assignment(text, i) {
            Some((k, l)) => {
                proof {
                    assert(t.skip(l as int) =~= text@.skip(i + l));
                    lemma_patched_assignment(t, package@, code@, name@);
                }
                push_replacement(&mut out, k, package, code, name);
                i = i + l;
                proof {
                    assert(out@ + patched(text@.skip(i as int), package@, code@, name@) =~= before
                        + patched(t, package@, code@, name@));
                }
            },
            None => {
                proof {
                    assert(t.skip(1) =~= text@.skip(i + 1));
                    assert(t[0] == text@[i as int]);
                    lemma_patched_plain(t, package@, code@, name@);
                }
                out.push(text[i]);
                i = i + 1;
                proof {
                    assert(out@ + patched(text@.skip(i as int), package@, code@, name@) =~= before
                        + patched(t, package@, code@, name@));
                }
            },
        }
    }
    assert(text@.skip(i as int) =~= Seq::<u8>::empty());
    assert(out@ + Seq::<u8>::empty() =~= out@);
    out
}

} // verus!
