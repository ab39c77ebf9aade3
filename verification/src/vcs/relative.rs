//! Where a path lies below a repository root.
use crate::paths::{
    below, components, forward_slashes, same_bytes, to_forward_slashes, PathParts, SLASH,
};
use vstd::prelude::*;
use vstd::slice::*;

verus! {

/// The canonical form of a path: its components, and its text as the system writes it.
#[derive(Debug)]
pub struct CanonicalPath {
    /// The components of the canonical form.
    pub parts: PathParts,
    /// The text of the canonical form.
    pub text: Vec<u8>,
}

/// What a [`CanonicalPath`] holds.
pub struct CanonicalView {
    pub parts: Seq<Seq<u8>>,
    pub text: Seq<u8>,
}

impl View for CanonicalPath {
    type V = CanonicalView;

    open spec fn view(&self) -> CanonicalView {
        CanonicalView { parts: self.parts@, text: self.text@ }
    }
}

/// A path of the machine.
///
/// A system that knows one file under several spellings (letter case, verbatim
/// prefixes) supplies the canonical form as well; elsewhere there is none.
#[derive(Debug)]
pub struct HostPath {
    /// The components of the path as it was given.
    pub parts: PathParts,
    /// The canonical form of the path, where spellings differ.
    pub canonical: Option<CanonicalPath>,
}

/// What a [`HostPath`] holds.
pub struct HostView {
    pub parts: Seq<Seq<u8>>,
    pub canonical: Option<CanonicalView>,
}

impl View for HostPath {
    type V = HostView;

    open spec fn view(&self) -> HostView {
        HostView {
            parts: self.parts@,
            canonical: match self.canonical {
                Some(form) => Some(form@),
                None => None,
            },
        }
    }
}

impl HostPath {
    /// The path with this text, written with `/`, on a system with one spelling for
    /// each file.
    pub fn from_text(text: &[u8]) -> (path: HostPath)
        ensures
            path@ == (HostView { parts: components(text@), canonical: None }),
    {
        HostPath { parts: PathParts::parse(text), canonical: None }
    }

    /// A path with these components and this canonical form.
    pub fn with_canonical(parts: PathParts, canonical: CanonicalPath) -> (path: HostPath)
        ensures
            path@ == (HostView { parts: parts@, canonical: Some(canonical@) }),
    {
        HostPath { parts, canonical: Some(canonical) }
    }

    /// A second copy of this path.
    pub fn duplicate(&self) -> (copy: HostPath)
        ensures
            copy@ == self@,
    {
        let canonical = match &self.canonical {
            Some(form) => Some(
                CanonicalPath {
                    parts: form.parts.duplicate(),
                    text: slice_to_vec(form.text.as_slice()),
                },
            ),
            None => None,
        };
        HostPath { parts: self.parts.duplicate(), canonical }
    }
}

/// `text` without the separators at its end.
pub open spec fn trimmed(text: Seq<u8>) -> Seq<u8>
    decreases text.len(),
{
    if text.len() > 0 && text.last() == SLASH {
        trimmed(text.drop_last())
    } else {
        text
    }
}

/// `//?/`
pub open spec fn verbatim_mark() -> Seq<u8> {
    seq![47, 47, 63, 47]
}

/// `//?/UNC/`
pub open spec fn verbatim_unc_mark() -> Seq<u8> {
    seq![47, 47, 63, 47, 85, 78, 67, 47]
}

/// A Windows path text in the form in which two of them are compared: `/` between the
/// components, no verbatim prefix, no separator at the end.
pub open spec fn comparable(text: Seq<u8>) -> Seq<u8> {
    let slashed = forward_slashes(text);
    trimmed(
        if verbatim_unc_mark().is_prefix_of(slashed) {
            seq![SLASH, SLASH] + slashed.skip(8)
        } else if verbatim_mark().is_prefix_of(slashed) {
            slashed.skip(4)
        } else {
            slashed
        },
    )
}

/// An ASCII capital as a small letter; any other byte as it is.
pub open spec fn small_letter(b: u8) -> u8 {
    if 65 <= b <= 90 {
        (b + 32) as u8
    } else {
        b
    }
}

/// `text` with its ASCII capitals as small letters.
pub open spec fn small_letters(text: Seq<u8>) -> Seq<u8> {
    text.map_values(|b: u8| small_letter(b))
}

/// Where `path` lies below `root`, going by the two texts and without regard to the
/// case of ASCII letters.
pub open spec fn below_by_text(path: Seq<u8>, root: Seq<u8>) -> Option<Seq<Seq<u8>>> {
    let p = comparable(path);
    let r = comparable(root);
    if small_letters(p) == small_letters(r) {
        Some(Seq::empty())
    } else if small_letters(r).push(SLASH).is_prefix_of(small_letters(p)) {
        Some(components(p.skip(r.len() as int + 1)))
    } else {
        None
    }
}

/// Where `path` lies below `root`, nothing if it does not: by the components as given,
/// else, where both have one, by the components of the canonical forms, else by the
/// texts of these.
pub open spec fn relative_to(path: HostView, root: HostView) -> Option<Seq<Seq<u8>>> {
    if root.parts.is_prefix_of(path.parts) {
        below(path.parts, root.parts)
    } else {
        match (path.canonical, root.canonical) {
            (Some(p), Some(r)) => if r.parts.is_prefix_of(p.parts) {
                below(p.parts, r.parts)
            } else {
                below_by_text(p.text, r.text)
            },
            _ => None,
        }
    }
}

fn begins_with(text: &[u8], start: &[u8]) -> (begins: bool)
    ensures
        begins == start@.is_prefix_of(text@),
{
    if start.len() > text.len() {
        return false;
    }
    same_bytes(slice_subrange(text, 0, start.len()), start)
}

/// Brings a Windows path text into the form in which two of them are compared.
pub fn normalize_windows_path_for_prefix(path: &[u8]) -> (normalized: Vec<u8>)
    ensures
        normalized@ == comparable(path@),
{
    let slashed: Vec<u8> = to_forward_slashes(path);
    let unc: Vec<u8> = vec![47u8, 47u8, 63u8, 47u8, 85u8, 78u8, 67u8, 47u8];
    let verbatim: Vec<u8> = vec![47u8, 47u8, 63u8, 47u8];
    assert(unc@ =~= verbatim_unc_mark());
    assert(verbatim@ =~= verbatim_mark());
    let mut normalized: Vec<u8> = if begins_with(slashed.as_slice(), unc.as_slice()) {
        let mut plain: Vec<u8> = vec![SLASH, SLASH];
        let mut rest: Vec<u8> = slice_to_vec(
            slice_subrange(slashed.as_slice(), 8, slashed.len()),
        );
        plain.append(&mut rest);
        assert(plain@ =~= seq![SLASH, SLASH] + slashed@.skip(8));
        plain
    } else if begins_with(slashed.as_slice(), verbatim.as_slice()) {
        let plain: Vec<u8> = slice_to_vec(slice_subrange(slashed.as_slice(), 4, slashed.len()));
        assert(plain@ =~= slashed@.skip(4));
        plain
    } else {
        slashed
    };
    let ghost untrimmed = normalized@;
    while normalized.len() > 0 && normalized[normalized.len() - 1] == SLASH
        invariant
            trimmed(normalized@) == trimmed(untrimmed),
        decreases normalized.len(),
    {
        let ghost before = normalized@;
        normalized.pop();
        assert(normalized@ =~= before.drop_last());
    }
    normalized
}

fn to_small_letters(text: &[u8]) -> (out: Vec<u8>)
    ensures
        out@ == small_letters(text@),
{
    let mut out: Vec<u8> = Vec::new();
    let mut i: usize = 0;
    while i < text.len()
        invariant
            i <= text@.len(),
            out@ == small_letters(text@.take(i as int)),
        decreases text@.len() - i,
    {
        let b: u8 = text[i];
        out.push(
            if 65 <= b && b <= 90 {
                b + 32
            } else {
                b
            },
        );
        assert(out@ =~= small_letters(text@.take(i + 1)));
        i = i + 1;
    }
    assert(text@.take(i as int) =~= text@);
    out
}

/// Where `path` lies below `root`, going by the two Windows texts.
fn relative_by_text(path: &[u8], root: &[u8]) -> (relative: Option<PathParts>)
    ensures
        match below_by_text(path@, root@) {
            Some(parts) => relative is Some && relative->0@ == parts,
            None => relative is None,
        },
{
    let path_norm: Vec<u8> = normalize_windows_path_for_prefix(path);
    let root_norm: Vec<u8> = normalize_windows_path_for_prefix(root);
    let path_small: Vec<u8> = to_small_letters(path_norm.as_slice());
    let mut root_small: Vec<u8> = to_small_letters(root_norm.as_slice());
    if same_bytes(path_small.as_slice(), root_small.as_slice()) {
        return Some(PathParts::empty());
    }
    root_small.push(SLASH);
    if begins_with(path_small.as_slice(), root_small.as_slice()) {
        let rest = slice_subrange(path_norm.as_slice(), root_small.len(), path_norm.len());
        assert(rest@ =~= path_norm@.skip(root_norm@.len() as int + 1));
        Some(PathParts::parse(rest))
    } else {
        None
    }
}

/// Where `path` lies below `repo_root`, if it lies below it at all.
pub fn repo_relative_path(path: &HostPath, repo_root: &HostPath) -> (relative: Option<PathParts>)
    ensures
        match relative_to(path@, repo_root@) {
            Some(parts) => relative is Some && relative->0@ == parts,
            None => relative is None,
        },
{
    if let Some(relative) = path.parts.strip_prefix(&repo_root.parts) {
        return Some(relative);
    }
    match (&path.canonical, &repo_root.canonical) {
        (Some(canonical_path), Some(canonical_root)) => {
            if let Some(relative) = canonical_path.parts.strip_prefix(&canonical_root.parts) {
                return Some(relative);
            }
            relative_by_text(canonical_path.text.as_slice(), canonical_root.text.as_slice())
        },
        _ => None,
    }
}

/// A verbatim prefix in front of a Windows path does not change where the path lies.
pub proof fn verbatim_prefix_makes_no_difference(text: Seq<u8>)
    requires
        !seq![85u8, 78, 67, 47].is_prefix_of(forward_slashes(text)),
        !verbatim_mark().is_prefix_of(forward_slashes(text)),
    ensures
        comparable(seq![92u8, 92, 63, 92] + text) == comparable(text),
{
    let marked = seq![92u8, 92, 63, 92] + text;
    let slashed = forward_slashes(marked);
    let plain = forward_slashes(text);
    assert(slashed =~= verbatim_mark() + plain);
    assert(slashed.skip(4) =~= plain);
    assert(verbatim_mark() =~= slashed.subrange(0, 4));
    if verbatim_unc_mark().is_prefix_of(slashed) {
        assert(plain.subrange(0, 4) =~= slashed.subrange(4, 8));
        assert(seq![85u8, 78, 67, 47] =~= verbatim_unc_mark().subrange(4, 8));
        assert(slashed.subrange(4, 8) =~= slashed.subrange(0, 8).subrange(4, 8));
        assert(seq![85u8, 78, 67, 47].is_prefix_of(plain));
    }
    if verbatim_unc_mark().is_prefix_of(plain) {
        assert(verbatim_mark() =~= plain.subrange(0, 8).subrange(0, 4));
        assert(plain.subrange(0, 8).subrange(0, 4) =~= plain.subrange(0, 4));
    }
}

/// Two spellings of a Windows root that differ in the case of ASCII letters alone have
/// the same paths below them.
pub proof fn letter_case_of_the_root_makes_no_difference(
    path: Seq<u8>,
    root: Seq<u8>,
    other_root: Seq<u8>,
)
    requires
        small_letters(comparable(root)) == small_letters(comparable(other_root)),
    ensures
        below_by_text(path, root) == below_by_text(path, other_root),
{
    assert(small_letters(comparable(root)).len() == comparable(root).len());
    assert(small_letters(comparable(other_root)).len() == comparable(other_root).len());
}

proof fn lemma_trimmed(text: Seq<u8>)
    ensures
        trimmed(text).len() <= text.len(),
        trimmed(text).is_prefix_of(text),
        forall|i: int| trimmed(text).len() <= i < text.len() ==> #[trigger] text[i] == SLASH,
        trimmed(text).len() > 0 ==> trimmed(text).last() != SLASH,
    decreases text.len(),
{
    if text.len() > 0 && text.last() == SLASH {
        let rest = text.drop_last();
        lemma_trimmed(rest);
        assert forall|i: int| trimmed(text).len() <= i < text.len() implies #[trigger] text[i]
            == SLASH by {
            if i < rest.len() {
                assert(rest[i] == text[i]);
            }
        }
        assert(text.subrange(0, trimmed(text).len() as int) =~= rest.subrange(
            0,
            trimmed(text).len() as int,
        ));
    } else {
        assert(text.subrange(0, text.len() as int) =~= text);
    }
}

/// A path text without a verbatim prefix is compared by all of it, byte for byte with slashes
/// for backslashes, but for the separators at its end.
pub proof fn texts_are_compared_without_their_end(text: Seq<u8>)
    requires
        !seq![47u8, 47, 63, 47].is_prefix_of(forward_slashes(text)),
    ensures
        comparable(text).len() <= text.len(),
        forall|i: int|
            0 <= i < comparable(text).len() ==> #[trigger] comparable(text)[i] == (if text[i]
                == 92 {
                47
            } else {
                text[i]
            }),
        forall|i: int|
            comparable(text).len() <= i < text.len() ==> #[trigger] text[i] == 47 || text[i] == 92,
        comparable(text).len() > 0 ==> comparable(text).last() != 47,
{
    let slashed = forward_slashes(text);
    assert(verbatim_mark() =~= seq![47u8, 47, 63, 47]);
    if verbatim_unc_mark().is_prefix_of(slashed) {
        assert(verbatim_mark() =~= verbatim_unc_mark().subrange(0, 4));
        assert(slashed.subrange(0, 4) =~= slashed.subrange(0, 8).subrange(0, 4));
        assert(verbatim_mark().is_prefix_of(slashed));
    }
    lemma_trimmed(slashed);
    assert forall|i: int| 0 <= i < comparable(text).len() implies #[trigger] comparable(text)[i]
        == (if text[i] == 92 {
        47
    } else {
        text[i]
    }) by {
        assert(slashed.subrange(0, comparable(text).len() as int)[i] == slashed[i]);
    }
    assert forall|i: int| comparable(text).len() <= i < text.len() implies #[trigger] text[i] == 47
        || text[i] == 92 by {
        assert(slashed[i] == SLASH);
    }
}

/// The verbatim prefix of a network path stands for the two separators that such a path begins
/// with.
pub proof fn verbatim_network_prefix_makes_no_difference(text: Seq<u8>)
    requires
        !seq![63u8, 47].is_prefix_of(forward_slashes(text)),
    ensures
        comparable(seq![92u8, 92, 63, 92, 85, 78, 67, 92] + text) == comparable(
            seq![92u8, 92] + text,
        ),
{
    let marked = seq![92u8, 92, 63, 92, 85, 78, 67, 92] + text;
    let plain = seq![92u8, 92] + text;
    let slashed = forward_slashes(marked);
    let rest = forward_slashes(text);
    assert(slashed =~= verbatim_unc_mark() + rest);
    assert(slashed.subrange(0, 8) =~= verbatim_unc_mark());
    assert(slashed.skip(8) =~= rest);
    assert(forward_slashes(plain) =~= seq![SLASH, SLASH] + rest);
    if verbatim_mark().is_prefix_of(forward_slashes(plain)) {
        assert(rest.subrange(0, 2) =~= forward_slashes(plain).subrange(0, 4).subrange(2, 4));
        assert(verbatim_mark().subrange(2, 4) =~= seq![63u8, 47]);
        assert(seq![63u8, 47].is_prefix_of(rest));
    }
    if verbatim_unc_mark().is_prefix_of(forward_slashes(plain)) {
        assert(rest.subrange(0, 2) =~= forward_slashes(plain).subrange(0, 8).subrange(2, 4));
        assert(verbatim_unc_mark().subrange(2, 4) =~= seq![63u8, 47]);
        assert(seq![63u8, 47].is_prefix_of(rest));
    }
}

/// Whether two bytes are the same but for the case of an ASCII letter.
pub open spec fn same_letter(a: u8, b: u8) -> bool {
    a == b || (65 <= a <= 90 && b == a + 32) || (65 <= b <= 90 && a == b + 32)
}

/// Whether two texts are the same but for the case of ASCII letters.
pub open spec fn same_letters(a: Seq<u8>, b: Seq<u8>) -> bool {
    a.len() == b.len() && forall|i: int| 0 <= i < a.len() ==> same_letter(#[trigger] a[i], b[i])
}

proof fn lemma_small_letters(a: Seq<u8>, b: Seq<u8>)
    ensures
        small_letters(a) == small_letters(b) <==> same_letters(a, b),
{
    if small_letters(a) == small_letters(b) {
        assert(small_letters(a).len() == a.len());
        assert(small_letters(b).len() == b.len());
        assert forall|i: int| 0 <= i < a.len() implies same_letter(#[trigger] a[i], b[i]) by {
            assert(small_letters(a)[i] == small_letter(a[i]));
            assert(small_letters(b)[i] == small_letter(b[i]));
        }
    }
    if same_letters(a, b) {
        assert(small_letters(a) =~= small_letters(b)) by {
            assert forall|i: int| 0 <= i < a.len() implies small_letters(a)[i] == small_letters(
                b,
            )[i] by {
                assert(same_letter(a[i], b[i]));
            }
        }
    }
}

/// Going by the texts, a path lies below a root exactly where its text begins with that of the
/// root, but for the case of letters, and then ends or goes on after a separator. What lies
/// below is what comes after the separator, in its own spelling.
pub proof fn texts_tell_what_lies_below(path: Seq<u8>, root: Seq<u8>)
    ensures
        below_by_text(path, root) is Some <==> ({
            let p = comparable(path);
            let r = comparable(root);
            &&& p.len() >= r.len()
            &&& same_letters(p.take(r.len() as int), r)
            &&& p.len() == r.len() || p[r.len() as int] == 47
        }),
        below_by_text(path, root) matches Some(rest) ==> ({
            let p = comparable(path);
            let r = comparable(root);
            &&& p.len() == r.len() ==> rest.len() == 0
            &&& p.len() > r.len() ==> rest == components(p.skip(r.len() as int + 1))
        }),
{
    let p = comparable(path);
    let r = comparable(root);
    let n = r.len() as int;
    let small_p = small_letters(p);
    let small_r = small_letters(r);
    lemma_small_letters(p, r);
    assert(small_p.len() == p.len());
    assert(small_r.len() == r.len());
    if p.len() >= n {
        lemma_small_letters(p.take(n), r);
        assert(small_letters(p.take(n)) =~= small_p.take(n));
        if p.len() == n {
            assert(p.take(n) =~= p);
        } else {
            let marked = small_r.push(SLASH);
            assert(small_p[n] == small_letter(p[n]));
            if marked.is_prefix_of(small_p) {
                assert(small_p.subrange(0, n + 1)[n] == marked[n]);
                assert(small_p.take(n) =~= small_p.subrange(0, n + 1).take(n));
                assert(marked.take(n) =~= small_r);
                assert(p[n] == SLASH);
            }
            if same_letters(p.take(n), r) && p[n] == 47 {
                assert(small_p.subrange(0, n + 1) =~= marked);
            }
        }
    }
}

/// A path that begins with the components of the root lies below it, and what is below makes up
/// the path together with the root. Where the spellings differ the canonical forms decide, by
/// their components and then by their texts; where one is missing the path lies outside.
pub proof fn relative_paths_lead_from_the_root(path: HostView, root: HostView)
    ensures
        root.parts.is_prefix_of(path.parts) ==> relative_to(path, root) is Some && root.parts
            + relative_to(path, root)->0 == path.parts,
        !root.parts.is_prefix_of(path.parts) && (path.canonical is None || root.canonical is None)
            ==> relative_to(path, root) is None,
        !root.parts.is_prefix_of(path.parts) ==> ((path.canonical, root.canonical) matches (
            Some(p),
            Some(r),
        ) ==> if r.parts.is_prefix_of(p.parts) {
            relative_to(path, root) is Some && r.parts + relative_to(path, root)->0 == p.parts
        } else {
            relative_to(path, root) == below_by_text(p.text, r.text)
        }),
{
    if root.parts.is_prefix_of(path.parts) {
        assert(root.parts + path.parts.skip(root.parts.len() as int) =~= path.parts);
    }
    if let (Some(p), Some(r)) = (path.canonical, root.canonical) {
        if r.parts.is_prefix_of(p.parts) {
            assert(r.parts + p.parts.skip(r.parts.len() as int) =~= p.parts);
        }
    }
}

} // verus!
