//! Paths as sequences of components.
//!
//! A path is text, and most of what is asked of it (is this file in that
//! directory, where is it below the repository root) is asked of its components.
//! Components are bytes: a file name need not be valid UTF-8.
use vstd::prelude::*;
use vstd::slice::*;

verus! {

/// `/`
pub const SLASH: u8 = 47;

/// `.`
pub const DOT: u8 = 46;

/// `\`
pub const BACKSLASH: u8 = 92;

/// What stands between the separators of `text`, in order; pieces may be empty.
pub open spec fn pieces(text: Seq<u8>) -> Seq<Seq<u8>>
    decreases text.len(),
{
    if text.len() == 0 {
        seq![Seq::empty()]
    } else {
        let before = pieces(text.drop_last());
        if text.last() == SLASH {
            before.push(Seq::empty())
        } else {
            before.drop_last().push(before.last().push(text.last()))
        }
    }
}

/// The component that stands for the root directory.
pub open spec fn root_component() -> Seq<u8> {
    seq![SLASH]
}

/// The component that stands for the current directory.
pub open spec fn dot_component() -> Seq<u8> {
    seq![DOT]
}

/// A piece of text that names something by itself, which `.` and the empty piece do not.
pub open spec fn names_something(piece: Seq<u8>) -> bool {
    piece.len() > 0 && piece != dot_component()
}

/// What a path begins with before its names: the root directory where the text
/// starts with a separator, the current directory where its first piece is `.`.
pub open spec fn lead(text: Seq<u8>) -> Seq<Seq<u8>> {
    if text.len() > 0 && text[0] == SLASH {
        seq![root_component()]
    } else if text.len() > 0 && text[0] == DOT && (text.len() == 1 || text[1] == SLASH) {
        seq![dot_component()]
    } else {
        Seq::empty()
    }
}

/// The components of a path written with `/`. Repeated and trailing separators
/// count for nothing, and so does `.` anywhere but at the beginning.
pub open spec fn components(text: Seq<u8>) -> Seq<Seq<u8>> {
    lead(text) + pieces(text).filter(|piece: Seq<u8>| names_something(piece))
}

/// A name between two separators.
pub open spec fn is_name(component: Seq<u8>) -> bool {
    names_something(component) && !component.contains(SLASH)
}

/// The shape of every sequence of components: names only, but for a root or a
/// current directory in front.
pub open spec fn well_formed(parts: Seq<Seq<u8>>) -> bool {
    &&& parts.len() > 0 ==> is_name(parts[0]) || parts[0] == root_component() || parts[0]
        == dot_component()
    &&& forall|i: int| 1 <= i < parts.len() ==> is_name(#[trigger] parts[i])
}

/// What is left of `parts` below `base`; nothing where `base` is no prefix of it.
pub open spec fn below(parts: Seq<Seq<u8>>, base: Seq<Seq<u8>>) -> Option<Seq<Seq<u8>>> {
    if base.is_prefix_of(parts) {
        Some(parts.skip(base.len() as int))
    } else {
        None
    }
}

/// `tail` seen from the directory `base`: an absolute `tail` stands for itself, and
/// a leading `.` adds nothing to a directory that has a name.
pub open spec fn joined(base: Seq<Seq<u8>>, tail: Seq<Seq<u8>>) -> Seq<Seq<u8>> {
    if tail.len() > 0 && tail[0] == root_component() {
        tail
    } else if tail.len() > 0 && tail[0] == dot_component() && base.len() > 0 {
        base + tail.skip(1)
    } else {
        base + tail
    }
}

/// The components of a path.
#[derive(Debug)]
pub struct PathParts {
    /// The components, from the outermost on.
    pub parts: Vec<Vec<u8>>,
}

impl View for PathParts {
    type V = Seq<Seq<u8>>;

    open spec fn view(&self) -> Seq<Seq<u8>> {
        self.parts@.map_values(|part: Vec<u8>| part@)
    }
}

/// Whether two byte strings are equal.
pub(crate) fn same_bytes(a: &[u8], b: &[u8]) -> (same: bool)
    ensures
        same == (a@ == b@),
{
    if a.len() != b.len() {
        return false;
    }
    let mut i: usize = 0;
    while i < a.len()
        invariant
            a@.len() == b@.len(),
            i <= a@.len(),
            forall|j: int| 0 <= j < i ==> a@[j] == b@[j],
        decreases a@.len() - i,
    {
        if a[i] != b[i] {
            return false;
        }
        i = i + 1;
    }
    assert(a@ =~= b@);
    true
}

impl PathParts {
    /// The path without components.
    pub fn empty() -> (path: PathParts)
        ensures
            path@ == Seq::<Seq<u8>>::empty(),
    {
        let path = PathParts { parts: Vec::new() };
        assert(path@ =~= Seq::<Seq<u8>>::empty());
        path
    }

    /// Adds one component at the end.
    pub fn push(&mut self, part: Vec<u8>)
        ensures
            final(self)@ == old(self)@.push(part@),
    {
        self.parts.push(part);
        assert(self@ =~= old(self)@.push(part@));
    }

    /// How many components there are.
    pub fn len(&self) -> (count: usize)
        ensures
            count == self@.len(),
    {
        self.parts.len()
    }

    /// Whether both paths have the same components.
    pub fn same(&self, other: &PathParts) -> (same: bool)
        ensures
            same == (self@ == other@),
    {
        assert(self@.subrange(0, self@.len() as int) =~= self@);
        self.parts.len() == other.parts.len() && self.starts_with(other)
    }

    /// Whether the components of `base` come first in this path.
    pub fn starts_with(&self, base: &PathParts) -> (prefixed: bool)
        ensures
            prefixed == base@.is_prefix_of(self@),
            prefixed && self@.len() == base@.len() ==> self@ == base@,
    {
        if base.parts.len() > self.parts.len() {
            return false;
        }
        let mut i: usize = 0;
        while i < base.parts.len()
            invariant
                base@.len() <= self@.len(),
                i <= base@.len(),
                forall|j: int| 0 <= j < i ==> self@[j] == base@[j],
            decreases base@.len() - i,
        {
            assert(self@[i as int] == self.parts@[i as int]@);
            assert(base@[i as int] == base.parts@[i as int]@);
            if !same_bytes(self.parts[i].as_slice(), base.parts[i].as_slice()) {
                assert(base@[i as int] != self@.subrange(0, base@.len() as int)[i as int]);
                return false;
            }
            i = i + 1;
        }
        assert(base@ =~= self@.subrange(0, base@.len() as int));
        true
    }

    /// Appends the components of `other` from index `from` on.
    fn push_from(&mut self, other: &PathParts, from: usize)
        requires
            from <= other@.len(),
        ensures
            final(self)@ == old(self)@ + other@.skip(from as int),
    {
        let mut i: usize = from;
        assert(self@ =~= old(self)@ + other@.subrange(from as int, i as int));
        while i < other.parts.len()
            invariant
                from <= i <= other@.len(),
                self@ == old(self)@ + other@.subrange(from as int, i as int),
            decreases other@.len() - i,
        {
            assert(other@[i as int] == other.parts@[i as int]@);
            self.push(slice_to_vec(other.parts[i].as_slice()));
            assert(other@.subrange(from as int, i + 1) =~= other@.subrange(
                from as int,
                i as int,
            ).push(other@[i as int]));
            i = i + 1;
        }
        assert(other@.subrange(from as int, i as int) =~= other@.skip(from as int));
    }

    /// A second copy of this path.
    pub fn duplicate(&self) -> (copy: PathParts)
        ensures
            copy@ == self@,
    {
        let mut copy = PathParts::empty();
        copy.push_from(self, 0);
        assert(copy@ =~= self@);
        copy
    }

    /// The path that leads from `base` to this one, if this one is below `base`.
    pub fn strip_prefix(&self, base: &PathParts) -> (rest: Option<PathParts>)
        ensures
            match below(self@, base@) {
                Some(parts) => rest is Some && rest->0@ == parts,
                None => rest is None,
            },
    {
        if self.starts_with(base) {
            let mut rest = PathParts::empty();
            rest.push_from(self, base.len());
            assert(rest@ =~= self@.skip(base@.len() as int));
            Some(rest)
        } else {
            None
        }
    }

    /// `tail` as seen from this directory.
    pub fn join(&self, tail: &PathParts) -> (path: PathParts)
        ensures
            path@ == joined(self@, tail@),
    {
        if tail.parts.len() == 0 {
            assert(joined(self@, tail@) =~= self@);
            return self.duplicate();
        }
        assert(tail@[0] == tail.parts@[0]@);
        let first = tail.parts[0].as_slice();
        let is_root = first.len() == 1 && first[0] == SLASH;
        let is_dot = first.len() == 1 && first[0] == DOT;
        assert(is_root == (tail@[0] == root_component())) by {
            if is_root {
                assert(tail@[0] =~= root_component());
            }
        }
        assert(is_dot == (tail@[0] == dot_component())) by {
            if is_dot {
                assert(tail@[0] =~= dot_component());
            }
        }
        if is_root {
            return tail.duplicate();
        }
        let mut path = self.duplicate();
        if is_dot && self.parts.len() > 0 {
            path.push_from(tail, 1);
        } else {
            path.push_from(tail, 0);
            assert(tail@.skip(0) =~= tail@);
        }
        path
    }

    /// Reads a path that is written with `/`.
    pub fn parse(text: &[u8]) -> (path: PathParts)
        ensures
            path@ == components(text@),
    {
        let mut path = PathParts::empty();
        if text.len() > 0 && text[0] == SLASH {
            let mut root: Vec<u8> = Vec::new();
            root.push(SLASH);
            assert(root@ =~= root_component());
            path.push(root);
        } else if text.len() > 0 && text[0] == DOT && (text.len() == 1 || text[1] == SLASH) {
            let mut dot: Vec<u8> = Vec::new();
            dot.push(DOT);
            assert(dot@ =~= dot_component());
            path.push(dot);
        }
        assert(path@ =~= lead(text@));
        let ghost named = |piece: Seq<u8>| names_something(piece);
        let mut piece: Vec<u8> = Vec::new();
        let mut i: usize = 0;
        assert(text@.take(0) =~= Seq::<u8>::empty());
        assert(pieces(text@.take(0)).drop_last() =~= Seq::<Seq<u8>>::empty());
        reveal_with_fuel(Seq::filter, 2);
        assert(path@ =~= lead(text@) + Seq::<Seq<u8>>::empty().filter(named));
        assert(piece@ =~= pieces(text@.take(0)).last());
        while i < text.len()
            invariant
                i <= text@.len(),
                named == (|piece: Seq<u8>| names_something(piece)),
                pieces(text@.take(i as int)).len() > 0,
                piece@ == pieces(text@.take(i as int)).last(),
                path@ == lead(text@) + pieces(text@.take(i as int)).drop_last().filter(named),
            decreases text@.len() - i,
        {
            let ghost seen = pieces(text@.take(i as int));
            proof {
                assert(text@.take(i + 1).drop_last() =~= text@.take(i as int));
                assert(text@.take(i + 1).last() == text@[i as int]);
                assert(seen =~= seen.drop_last().push(seen.last()));
                assert(seen.drop_last().push(piece@).drop_last() =~= seen.drop_last());
                reveal_with_fuel(Seq::filter, 2);
            }
            let b: u8 = text[i];
            if b == SLASH {
                assert(pieces(text@.take(i + 1)).drop_last() =~= seen);
                path.push_name(piece);
                piece = Vec::new();
                assert(piece@ =~= Seq::<u8>::empty());
                assert(path@ =~= lead(text@) + seen.filter(named));
            } else {
                piece.push(b);
                assert(pieces(text@.take(i + 1)).drop_last() =~= seen.drop_last());
            }
            i = i + 1;
        }
        proof {
            let seen = pieces(text@.take(i as int));
            assert(text@.take(i as int) =~= text@);
            assert(seen =~= seen.drop_last().push(seen.last()));
            assert(seen.drop_last().push(piece@).drop_last() =~= seen.drop_last());
            reveal_with_fuel(Seq::filter, 2);
        }
        path.push_name(piece);
        assert(path@ =~= components(text@));
        path
    }

    /// Adds `piece` at the end where it names something.
    fn push_name(&mut self, piece: Vec<u8>)
        ensures
            final(self)@ == (if names_something(piece@) {
                old(self)@.push(piece@)
            } else {
                old(self)@
            }),
    {
        let is_dot = piece.len() == 1 && piece[0] == DOT;
        assert(is_dot == (piece@ == dot_component())) by {
            if is_dot {
                assert(piece@ =~= dot_component());
            }
        }
        if piece.len() > 0 && !is_dot {
            self.push(piece);
        }
    }
}

/// `names`, with a separator between any two.
pub open spec fn separated(names: Seq<Seq<u8>>) -> Seq<u8>
    decreases names.len(),
{
    if names.len() == 0 {
        Seq::empty()
    } else if names.len() == 1 {
        names[0]
    } else {
        separated(names.drop_last()) + seq![SLASH] + names.last()
    }
}

/// The shortest text of a path, written with `/`.
pub open spec fn written(parts: Seq<Seq<u8>>) -> Seq<u8> {
    if parts.len() > 0 && parts[0] == root_component() {
        seq![SLASH] + separated(parts.skip(1))
    } else {
        separated(parts)
    }
}

/// `text` with every `\` turned into `/`.
pub open spec fn forward_slashes(text: Seq<u8>) -> Seq<u8> {
    text.map_values(
        |b: u8|
            if b == BACKSLASH {
                SLASH
            } else {
                b
            },
    )
}

/// Turns every `\` into `/`.
pub fn to_forward_slashes(text: &[u8]) -> (out: Vec<u8>)
    ensures
        out@ == forward_slashes(text@),
{
    let mut out: Vec<u8> = Vec::new();
    let mut i: usize = 0;
    while i < text.len()
        invariant
            i <= text@.len(),
            out@ == forward_slashes(text@.take(i as int)),
        decreases text@.len() - i,
    {
        let b: u8 = text[i];
        out.push(
            if b == BACKSLASH {
                SLASH
            } else {
                b
            },
        );
        assert(out@ =~= forward_slashes(text@.take(i + 1)));
        i = i + 1;
    }
    assert(text@.take(i as int) =~= text@);
    out
}

fn push_bytes(out: &mut Vec<u8>, bytes: &[u8])
    ensures
        final(out)@ == old(out)@ + bytes@,
{
    let mut i: usize = 0;
    assert(out@ =~= old(out)@ + bytes@.take(0));
    while i < bytes.len()
        invariant
            i <= bytes@.len(),
            out@ == old(out)@ + bytes@.take(i as int),
        decreases bytes@.len() - i,
    {
        out.push(bytes[i]);
        assert(bytes@.take(i + 1) =~= bytes@.take(i as int).push(bytes@[i as int]));
        assert(out@ =~= old(out)@ + bytes@.take(i + 1));
        i = i + 1;
    }
    assert(bytes@.take(i as int) =~= bytes@);
}

impl PathParts {
    /// Writes the path with `/`.
    pub fn to_text(&self) -> (text: Vec<u8>)
        ensures
            text@ == written(self@),
    {
        let mut text: Vec<u8> = Vec::new();
        let mut from: usize = 0;
        if self.parts.len() > 0 {
            assert(self@[0] == self.parts@[0]@);
            let first = self.parts[0].as_slice();
            if first.len() == 1 && first[0] == SLASH {
                assert(self@[0] =~= root_component());
                text.push(SLASH);
                from = 1;
            }
        }
        let ghost start = text@;
        let ghost names = self@.skip(from as int);
        let mut i: usize = from;
        assert(names.take(0) =~= Seq::<Seq<u8>>::empty());
        assert(text@ =~= start + separated(names.take(0)));
        while i < self.parts.len()
            invariant
                from <= i <= self@.len(),
                names == self@.skip(from as int),
                text@ == start + separated(names.take(i - from)),
            decreases self@.len() - i,
        {
            assert(self@[i as int] == self.parts@[i as int]@);
            assert(names.take(i + 1 - from).drop_last() =~= names.take(i - from));
            if i > from {
                text.push(SLASH);
            } else {
                assert(names.take(i + 1 - from) =~= seq![self@[i as int]]);
            }
            push_bytes(&mut text, self.parts[i].as_slice());
            assert(text@ =~= start + separated(names.take(i + 1 - from)));
            i = i + 1;
        }
        assert(names.take(i - from) =~= names);
        assert(self@.skip(0) =~= self@);
        assert(text@ =~= written(self@));
        text
    }
}

// ---------------------------------------------------------------------------
// What the texts and the components have to do with each other
// ---------------------------------------------------------------------------

proof fn lemma_pieces_split(a: Seq<u8>, b: Seq<u8>)
    ensures
        pieces(a).len() > 0,
        pieces(a + seq![SLASH] + b) == pieces(a) + pieces(b),
    decreases b.len(),
{
    lemma_pieces_nonempty(a);
    let whole = a + seq![SLASH] + b;
    if b.len() == 0 {
        assert(whole.drop_last() =~= a);
        assert(pieces(whole) =~= pieces(a) + pieces(b));
    } else {
        lemma_pieces_split(a, b.drop_last());
        lemma_pieces_nonempty(b.drop_last());
        assert(whole.drop_last() =~= a + seq![SLASH] + b.drop_last());
        assert(whole.last() == b.last());
        assert(pieces(whole) =~= pieces(a) + pieces(b));
    }
}

proof fn lemma_pieces_nonempty(a: Seq<u8>)
    ensures
        pieces(a).len() > 0,
    decreases a.len(),
{
    if a.len() > 0 {
        lemma_pieces_nonempty(a.drop_last());
    }
}

proof fn lemma_pieces_single(a: Seq<u8>)
    requires
        !a.contains(SLASH),
    ensures
        pieces(a) == seq![a],
    decreases a.len(),
{
    if a.len() == 0 {
        assert(a =~= Seq::<u8>::empty());
    } else {
        assert forall|b: u8| a.drop_last().contains(b) implies a.contains(b) by {
            let i = choose|i: int| 0 <= i < a.len() - 1 && a.drop_last()[i] == b;
            assert(a[i] == b);
        }
        lemma_pieces_single(a.drop_last());
        assert(a.contains(a.last()));
        assert(a.drop_last().push(a.last()) =~= a);
        assert(pieces(a) =~= seq![a]);
    }
}

proof fn lemma_pieces_no_slash(a: Seq<u8>)
    ensures
        forall|i: int| 0 <= i < pieces(a).len() ==> !(#[trigger] pieces(a)[i]).contains(SLASH),
    decreases a.len(),
{
    lemma_pieces_nonempty(a);
    if a.len() > 0 {
        let before = pieces(a.drop_last());
        lemma_pieces_nonempty(a.drop_last());
        lemma_pieces_no_slash(a.drop_last());
        assert forall|i: int| 0 <= i < pieces(a).len() implies !(#[trigger] pieces(a)[i]).contains(
            SLASH,
        ) by {
            if a.last() != SLASH && i == pieces(a).len() - 1 {
                let piece = before.last();
                assert(pieces(a)[i] == piece.push(a.last()));
                if pieces(a)[i].contains(SLASH) {
                    let k = choose|k: int|
                        0 <= k < pieces(a)[i].len() && pieces(a)[i][k] == SLASH;
                    assert(piece[k] == SLASH);
                    assert(piece.contains(SLASH));
                }
            } else if i < before.len() {
                assert(pieces(a)[i] == before[i]);
            }
        }
    }
}

proof fn lemma_pieces_separated(names: Seq<Seq<u8>>)
    requires
        names.len() > 0,
        forall|i: int| 0 <= i < names.len() ==> !(#[trigger] names[i]).contains(SLASH),
    ensures
        pieces(separated(names)) == names,
    decreases names.len(),
{
    if names.len() == 1 {
        lemma_pieces_single(names[0]);
        assert(names =~= seq![names[0]]);
    } else {
        lemma_pieces_separated(names.drop_last());
        lemma_pieces_single(names.last());
        lemma_pieces_split(separated(names.drop_last()), names.last());
        assert(names =~= names.drop_last() + seq![names.last()]);
    }
}

proof fn lemma_filter_keeps_all(parts: Seq<Seq<u8>>)
    requires
        forall|i: int| 0 <= i < parts.len() ==> names_something(#[trigger] parts[i]),
    ensures
        parts.filter(|piece: Seq<u8>| names_something(piece)) == parts,
    decreases parts.len(),
{
    reveal_with_fuel(Seq::filter, 2);
    if parts.len() > 0 {
        lemma_filter_keeps_all(parts.drop_last());
        assert(names_something(parts[parts.len() - 1]));
        assert(parts.drop_last().push(parts.last()) =~= parts);
    }
}

proof fn lemma_filter_skips_head(parts: Seq<Seq<u8>>)
    requires
        parts.len() > 0,
        !names_something(parts[0]),
        forall|i: int| 1 <= i < parts.len() ==> names_something(#[trigger] parts[i]),
    ensures
        parts.filter(|piece: Seq<u8>| names_something(piece)) == parts.skip(1),
    decreases parts.len(),
{
    reveal_with_fuel(Seq::filter, 2);
    if parts.len() == 1 {
        assert(parts.drop_last() =~= Seq::<Seq<u8>>::empty());
        assert(parts.skip(1) =~= Seq::<Seq<u8>>::empty());
    } else {
        lemma_filter_skips_head(parts.drop_last());
        assert(names_something(parts[parts.len() - 1]));
        assert(parts.drop_last().skip(1).push(parts.last()) =~= parts.skip(1));
    }
}

/// Whatever the text, what is read from it is the root or the current directory at
/// most once, in front, and names after it.
pub proof fn components_are_well_formed(text: Seq<u8>)
    ensures
        well_formed(components(text)),
{
    let named = |piece: Seq<u8>| names_something(piece);
    let names = pieces(text).filter(named);
    lemma_pieces_no_slash(text);
    assert forall|i: int| 0 <= i < names.len() implies is_name(#[trigger] names[i]) by {
        pieces(text).lemma_filter_pred(named, i);
        pieces(text).lemma_filter_contains_rev(named, names[i]);
        assert(pieces(text).contains(names[i]));
    }
    let parts = components(text);
    assert forall|i: int| 1 <= i < parts.len() implies is_name(#[trigger] parts[i]) by {
        assert(parts[i] == names[i - lead(text).len()]);
    }
    if lead(text).len() == 0 && parts.len() > 0 {
        assert(parts[0] == names[0]);
    }
}

proof fn lemma_root_reads_back(names: Seq<Seq<u8>>)
    requires
        forall|i: int| 0 <= i < names.len() ==> is_name(#[trigger] names[i]),
    ensures
        components(seq![SLASH] + separated(names)) == seq![root_component()] + names,
{
    let none = Seq::<u8>::empty();
    let text = seq![SLASH] + separated(names);
    lemma_pieces_split(none, separated(names));
    lemma_pieces_single(none);
    assert(text =~= none + seq![SLASH] + separated(names));
    if names.len() == 0 {
        assert(separated(names) =~= none);
        assert(pieces(text) =~= seq![none].push(none));
        lemma_filter_skips_head(seq![none]);
        assert(seq![none].push(none).drop_last() =~= seq![none]);
        reveal_with_fuel(Seq::filter, 2);
    } else {
        lemma_pieces_separated(names);
        assert(pieces(text) =~= seq![none] + names);
        lemma_filter_skips_head(pieces(text));
        assert((seq![none] + names).skip(1) =~= names);
    }
    assert(components(text) =~= seq![root_component()] + names);
}

proof fn lemma_relative_reads_back(parts: Seq<Seq<u8>>)
    requires
        well_formed(parts),
        parts.len() > 0,
        parts[0] != root_component(),
    ensures
        components(separated(parts)) == parts,
{
    let text = separated(parts);
    assert forall|i: int| 0 <= i < parts.len() implies !(#[trigger] parts[i]).contains(SLASH) by {
        if i == 0 && parts[0] == dot_component() {
            assert(!dot_component().contains(SLASH));
        }
    }
    lemma_pieces_separated(parts);
    lemma_first_piece(text);
    if parts[0] == dot_component() {
        lemma_filter_skips_head(parts);
        assert(lead(text) == seq![dot_component()]);
    } else {
        lemma_filter_keeps_all(parts);
        assert(lead(text) =~= Seq::<Seq<u8>>::empty());
    }
    assert(components(text) =~= parts);
}

/// Writing a path down and reading it again gives the same path.
pub proof fn written_reads_back(parts: Seq<Seq<u8>>)
    requires
        well_formed(parts),
    ensures
        components(written(parts)) == parts,
{
    if parts.len() == 0 {
        let none = Seq::<u8>::empty();
        lemma_pieces_single(none);
        lemma_filter_skips_head(pieces(none));
        assert(components(none) =~= parts);
    } else if parts[0] == root_component() {
        let names = parts.skip(1);
        assert forall|i: int| 0 <= i < names.len() implies is_name(#[trigger] names[i]) by {
            assert(names[i] == parts[i + 1]);
        }
        lemma_root_reads_back(names);
        assert(seq![root_component()] + names =~= parts);
    } else {
        lemma_relative_reads_back(parts);
    }
}

/// How the first piece shows in the first two bytes.
proof fn lemma_first_piece(text: Seq<u8>)
    ensures
        pieces(text).len() > 0,
        text.len() > 0 && text[0] == SLASH ==> pieces(text)[0].len() == 0,
        (text.len() > 0 && text[0] == DOT && (text.len() == 1 || text[1] == SLASH)) <==> pieces(
            text,
        )[0] == dot_component(),
    decreases text.len(),
{
    lemma_pieces_nonempty(text);
    if text.len() == 0 {
        assert(pieces(text)[0] != dot_component());
    } else if text.contains(SLASH) {
        let k = text.index_of_first(SLASH);
        text.index_of_first_ensures(SLASH);
        let i = k->0;
        let a = text.subrange(0, i);
        let b = text.skip(i + 1);
        assert(text =~= a + seq![SLASH] + b);
        if a.contains(SLASH) {
            let j = choose|j: int| 0 <= j < a.len() && a[j] == SLASH;
            assert(text[j] == SLASH);
        }
        lemma_pieces_split(a, b);
        lemma_pieces_single(a);
        assert(pieces(text)[0] == a);
        if a == dot_component() {
            assert(a[0] == DOT);
        }
        if text[0] == DOT && text[1] == SLASH {
            assert(a =~= dot_component());
        }
    } else {
        lemma_pieces_single(text);
        assert(text.len() > 0 ==> text.contains(text[0]));
        if text.len() > 1 {
            assert(text.contains(text[1]));
        }
        if text.len() == 1 && text[0] == DOT {
            assert(text =~= dot_component());
        }
    }
}

/// A path is found again by going from a directory above it along what is below
/// that directory.
pub proof fn joined_below_is_the_path(parts: Seq<Seq<u8>>, base: Seq<Seq<u8>>)
    requires
        well_formed(parts),
        base.is_prefix_of(parts),
    ensures
        below(parts, base) is Some,
        joined(base, below(parts, base)->0) == parts,
{
    let tail = parts.skip(base.len() as int);
    assert(base + tail =~= parts);
    if base.len() == 0 {
        assert(tail =~= parts);
        assert(base + parts =~= parts);
    } else if tail.len() > 0 {
        assert(tail[0] == parts[base.len() as int]);
        assert(root_component().contains(SLASH)) by {
            assert(root_component()[0] == SLASH);
        }
    }
}

proof fn lemma_names_of_one_piece(b: Seq<u8>)
    requires
        !b.contains(SLASH),
    ensures
        pieces(b).filter(|piece: Seq<u8>| names_something(piece)) == (if names_something(b) {
            seq![b]
        } else {
            Seq::empty()
        }),
{
    lemma_pieces_single(b);
    if names_something(b) {
        lemma_filter_keeps_all(seq![b]);
    } else {
        lemma_filter_skips_head(seq![b]);
        assert(seq![b].skip(1) =~= Seq::<Seq<u8>>::empty());
    }
}

/// What a text without a separator stands for: nothing where it is empty, else itself, be it a
/// name, `.` or `..`. With a separator in front it is seen from the root.
pub proof fn texts_without_separators(b: Seq<u8>)
    requires
        !b.contains(47),
    ensures
        b.len() == 0 ==> components(b) == Seq::<Seq<u8>>::empty(),
        b.len() > 0 ==> components(b) == seq![b],
        components(seq![47u8] + b) == (if b.len() == 0 || b == seq![46u8] {
            seq![seq![47u8]]
        } else {
            seq![seq![47u8], b]
        }),
{
    lemma_names_of_one_piece(b);
    if b.len() > 0 {
        assert(b.contains(b[0]));
        if b[0] == DOT && b.len() > 1 {
            assert(b.contains(b[1]));
        }
        if b == dot_component() {
            assert(components(b) =~= seq![b]);
        } else {
            if b.len() == 1 && b[0] == DOT {
                assert(b =~= dot_component());
            }
            assert(components(b) =~= seq![b]);
        }
    } else {
        assert(components(b) =~= Seq::<Seq<u8>>::empty());
    }
    let none = Seq::<u8>::empty();
    let text = seq![47u8] + b;
    let named = |piece: Seq<u8>| names_something(piece);
    lemma_pieces_split(none, b);
    lemma_names_of_one_piece(none);
    assert(text =~= none + seq![SLASH] + b);
    Seq::filter_distributes_over_add(pieces(none), pieces(b), named);
    assert(root_component() =~= seq![47u8]);
    assert(dot_component() =~= seq![46u8]);
    if names_something(b) {
        assert(components(text) =~= seq![seq![47u8], b]);
    } else {
        assert(components(text) =~= seq![seq![47u8]]);
    }
}

/// A path is read one name after the other: what follows the last separator is its last
/// component, and one more separator, or a `.` there, adds nothing.
pub proof fn texts_are_read_name_by_name(a: Seq<u8>, b: Seq<u8>)
    requires
        a.len() > 0,
        !b.contains(47),
    ensures
        components(a + seq![47u8] + b) == (if b.len() == 0 || b == seq![46u8] {
            components(a)
        } else {
            components(a).push(b)
        }),
{
    let text = a + seq![47u8] + b;
    let named = |piece: Seq<u8>| names_something(piece);
    lemma_pieces_split(a, b);
    lemma_names_of_one_piece(b);
    Seq::filter_distributes_over_add(pieces(a), pieces(b), named);
    assert(text[0] == a[0]);
    if a.len() == 1 {
        assert(text[1] == SLASH);
    } else {
        assert(text[1] == a[1]);
    }
    assert(lead(text) == lead(a));
    assert(dot_component() =~= seq![46u8]);
    if names_something(b) {
        assert(components(text) =~= components(a).push(b));
    } else {
        assert(components(text) =~= components(a));
    }
}

/// A path is written name after name with one separator between two, and none at its end; the
/// root is a separator by itself.
pub proof fn paths_are_written_name_by_name(parts: Seq<Seq<u8>>, name: Seq<u8>)
    ensures
        written(Seq::empty()) == Seq::<u8>::empty(),
        written(seq![seq![47u8]]) == seq![47u8],
        name != seq![47u8] ==> written(seq![name]) == name,
        parts.len() == 1 && parts[0] == seq![47u8] ==> written(parts.push(name)) == seq![47u8]
            + name,
        parts.len() > 1 || (parts.len() == 1 && parts[0] != seq![47u8]) ==> written(
            parts.push(name),
        ) == written(parts) + seq![47u8] + name,
{
    assert(root_component() =~= seq![47u8]);
    assert(written(Seq::empty()) =~= Seq::<u8>::empty());
    assert(seq![seq![47u8]].skip(1) =~= Seq::<Seq<u8>>::empty());
    assert(written(seq![seq![47u8]]) =~= seq![47u8]);
    assert(seq![name].len() == 1 && seq![name][0] == name);
    let more = parts.push(name);
    if parts.len() > 0 && parts[0] == root_component() {
        assert(more[0] == root_component());
        assert(more.skip(1) =~= parts.skip(1).push(name));
        assert(parts.skip(1).push(name).drop_last() =~= parts.skip(1));
        if parts.len() == 1 {
            assert(more.skip(1) =~= seq![name]);
        }
        assert(written(more) =~= if parts.len() == 1 {
            seq![47u8] + name
        } else {
            written(parts) + seq![47u8] + name
        });
    } else if parts.len() > 0 {
        assert(more[0] == parts[0]);
        assert(more.drop_last() =~= parts);
        assert(written(more) =~= written(parts) + seq![47u8] + name);
    }
}

/// What is read from what was written is the path again, for every path of names that are not
/// empty, are not `.` and hold no separator, with or without the root in front.
pub proof fn names_survive_writing(names: Seq<Seq<u8>>)
    requires
        forall|i: int|
            0 <= i < names.len() ==> (#[trigger] names[i]).len() > 0 && names[i] != seq![46u8]
                && !names[i].contains(47),
    ensures
        components(written(names)) == names,
        components(written(seq![seq![47u8]] + names)) == seq![seq![47u8]] + names,
{
    assert(root_component() =~= seq![47u8]);
    assert(dot_component() =~= seq![46u8]);
    assert forall|i: int| 0 <= i < names.len() implies is_name(#[trigger] names[i]) by {}
    let absolute = seq![seq![47u8]] + names;
    assert forall|i: int| 1 <= i < absolute.len() implies is_name(#[trigger] absolute[i]) by {
        assert(absolute[i] == names[i - 1]);
    }
    assert(absolute[0] == root_component());
    assert(well_formed(names));
    assert(well_formed(absolute));
    written_reads_back(names);
    written_reads_back(absolute);
}

/// A path seen from a directory lies in it, name for name, unless it starts at the root, which
/// no directory changes; a `.` in front of it stands for the directory.
pub proof fn joining_goes_down(base: Seq<Seq<u8>>, tail: Seq<Seq<u8>>)
    ensures
        tail.len() == 0 ==> joined(base, tail) == base,
        tail.len() > 0 && tail[0] == seq![47u8] ==> joined(base, tail) == tail,
        tail.len() > 0 && tail[0] == seq![46u8] && base.len() > 0 ==> joined(base, tail) == base
            + tail.skip(1),
        tail.len() > 0 && tail[0] != seq![47u8] && (tail[0] != seq![46u8] || base.len() == 0)
            ==> joined(base, tail) == base + tail,
{
    assert(root_component() =~= seq![47u8]);
    assert(dot_component() =~= seq![46u8]);
    assert(seq![47u8][0] != seq![46u8][0]);
    if tail.len() == 0 {
        assert(joined(base, tail) =~= base);
    }
}

/// What lies below a directory is what the directory and it make up together; what does not
/// begin with the directory, component for component, does not lie below it.
pub proof fn below_is_the_rest(base: Seq<Seq<u8>>, rest: Seq<Seq<u8>>, other: Seq<Seq<u8>>)
    ensures
        below(base + rest, base) == Some(rest),
        below(other, base) is Some <==> other.len() >= base.len() && forall|i: int|
            0 <= i < base.len() ==> #[trigger] other[i] == base[i],
        below(other, base) matches Some(tail) ==> base + tail == other,
{
    assert((base + rest).subrange(0, base.len() as int) =~= base);
    assert((base + rest).skip(base.len() as int) =~= rest);
    if base.is_prefix_of(other) {
        assert(base + other.skip(base.len() as int) =~= other);
        assert forall|i: int| 0 <= i < base.len() implies #[trigger] other[i] == base[i] by {
            assert(other.subrange(0, base.len() as int)[i] == base[i]);
        }
    } else if other.len() >= base.len() && forall|i: int|
        0 <= i < base.len() ==> #[trigger] other[i] == base[i] {
        assert(other.subrange(0, base.len() as int) =~= base);
    }
}

/// Backslashes turn into slashes where they stand; every other byte stays.
pub proof fn slashes_replace_backslashes(text: Seq<u8>, i: int)
    requires
        0 <= i < text.len(),
    ensures
        forward_slashes(text).len() == text.len(),
        text[i] == 92 ==> forward_slashes(text)[i] == 47,
        text[i] != 92 ==> forward_slashes(text)[i] == text[i],
{
}

} // verus!
