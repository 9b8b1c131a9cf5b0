//! The metadata registry: deduplicates per-cell visual attribute sets into
//! small integer handles, so that the renderer can compare attributes by
//! handle instead of by field-wise equality.
//!
//! The registry is grow-only: a handle, once assigned, stays valid and keeps
//! denoting the same attribute set for the life of the registry.

use vstd::prelude::*;

use crate::color::Rgba;

verus! {

/// Decoration flag: a single underline.
pub const FLAG_UNDERLINE: u16 = 0x0001;

/// Decoration flag: a double underline.
pub const FLAG_DOUBLE_UNDERLINE: u16 = 0x0002;

/// Decoration flag: a dotted underline.
pub const FLAG_DOTTED_UNDERLINE: u16 = 0x0004;

/// Decoration flag: a dashed underline.
pub const FLAG_DASHED_UNDERLINE: u16 = 0x0008;

/// Decoration flag: an undercurl.
pub const FLAG_UNDERCURL: u16 = 0x0010;

/// Decoration flag: strikeout.
pub const FLAG_STRIKEOUT: u16 = 0x0020;

/// A cell's visual attribute set: background color, underline color, and the
/// set of decoration flags. Equality is structural.
#[derive(Clone, Copy, Debug, PartialEq, Eq, Structural)]
pub struct Metadata {
    pub bg: Rgba,
    pub underline_color: Rgba,
    pub flags: u16,
}

impl Metadata {
    /// An attribute set with the given colors and no decoration flags.
    pub fn new(bg: Rgba, underline_color: Rgba) -> (m: Metadata)
        ensures
            m == (Metadata { bg, underline_color, flags: 0 }),
    {
        let flags: u16 = 0;
        Metadata { bg, underline_color, flags }
    }

    /// The same attribute set with another underline color.
    pub fn with_underline_color(self, underline_color: Rgba) -> (m: Metadata)
        ensures
            m == (Metadata { underline_color, ..self }),
    {
        Metadata { underline_color, ..self }
    }

    /// The same attribute set with another decoration flag set.
    pub fn with_flags(self, flags: u16) -> (m: Metadata)
        ensures
            m == (Metadata { flags, ..self }),
    {
        Metadata { flags, ..self }
    }
}

/// The flat integer form in which attribute sets are stored: the channels of
/// both colors followed by the decoration flags. The conversion is one to one.
pub type MetaTuple = (u8, u8, u8, u8, u8, u8, u8, u8, u16);

/// A `Metadata` value as its flat integer form.
pub open spec fn spec_meta_to_tuple(m: Metadata) -> MetaTuple {
    (
        m.bg.r,
        m.bg.g,
        m.bg.b,
        m.bg.a,
        m.underline_color.r,
        m.underline_color.g,
        m.underline_color.b,
        m.underline_color.a,
        m.flags,
    )
}

/// The flat integer form read back as a `Metadata` value.
pub open spec fn spec_tuple_to_meta(t: MetaTuple) -> Metadata {
    Metadata {
        bg: Rgba { r: t.0, g: t.1, b: t.2, a: t.3 },
        underline_color: Rgba { r: t.4, g: t.5, b: t.6, a: t.7 },
        flags: t.8,
    }
}

fn meta_to_tuple(m: &Metadata) -> (t: MetaTuple)
    ensures
        t == spec_meta_to_tuple(*m),
{
    (
        m.bg.r,
        m.bg.g,
        m.bg.b,
        m.bg.a,
        m.underline_color.r,
        m.underline_color.g,
        m.underline_color.b,
        m.underline_color.a,
        m.flags,
    )
}

fn tuple_to_meta(t: &MetaTuple) -> (m: Metadata)
    ensures
        m == spec_tuple_to_meta(*t),
{
    Metadata {
        bg: Rgba { r: t.0, g: t.1, b: t.2, a: t.3 },
        underline_color: Rgba { r: t.4, g: t.5, b: t.6, a: t.7 },
        flags: t.8,
    }
}

/// The round trip through the flat form is the identity.
pub proof fn lemma_meta_tuple_round_trip(m: Metadata, t: MetaTuple)
    ensures
        spec_tuple_to_meta(spec_meta_to_tuple(m)) == m,
        spec_meta_to_tuple(spec_tuple_to_meta(t)) == t,
{
}

/// Declares indexmap's insertion-ordered set so that a field can hold one;
/// the verifier sees nothing of its inside beyond the wrappers below.
#[verifier::external_type_specification]
#[verifier::external_body]
#[verifier::reject_recursive_types(T)]
#[verifier::reject_recursive_types(S)]
pub struct ExIndexSet<T, S>(indexmap::IndexSet<T, S>);

/// What an insertion-ordered set of attribute tuples holds, in insertion
/// order.
pub uninterp spec fn index_set_elems(s: indexmap::IndexSet<MetaTuple>) -> Seq<MetaTuple>;

/// Relies on indexmap::IndexSet::new: creates an empty set.
#[verifier::external_body]
fn index_set_new() -> (s: indexmap::IndexSet<MetaTuple>)
    ensures
        index_set_elems(s) == Seq::<MetaTuple>::empty(),
{
    indexmap::IndexSet::new()
}

/// Relies on indexmap::IndexSet::len: the number of elements.
#[verifier::external_body]
fn index_set_len(s: &indexmap::IndexSet<MetaTuple>) -> (n: usize)
    ensures
        n == index_set_elems(*s).len(),
{
    s.len()
}

/// Relies on indexmap::IndexSet::insert_full: when an equal item is already
/// in the set it returns that item's index and `false` and leaves the set
/// unchanged; otherwise it appends the item, keeping insertion order, and
/// returns the new item's index and `true`.
#[verifier::external_body]
fn index_set_insert_full(s: &mut indexmap::IndexSet<MetaTuple>, item: MetaTuple) -> (r: (
    usize,
    bool,
))
    ensures
        index_set_elems(*old(s)).contains(item) ==> {
            &&& index_set_elems(*final(s)) == index_set_elems(*old(s))
            &&& r.1 == false
            &&& 0 <= r.0 < index_set_elems(*old(s)).len()
            &&& index_set_elems(*old(s))[r.0 as int] == item
        },
        !index_set_elems(*old(s)).contains(item) ==> {
            &&& index_set_elems(*final(s)) == index_set_elems(*old(s)).push(item)
            &&& r.1 == true
            &&& r.0 == index_set_elems(*old(s)).len()
        },
{
    s.insert_full(item)
}

/// Relies on indexmap::IndexSet::get_index: the element at an insertion-order
/// index, or nothing when the index is out of range.
#[verifier::external_body]
fn index_set_get_index(s: &indexmap::IndexSet<MetaTuple>, index: usize) -> (r: Option<MetaTuple>)
    ensures
        r == (if index < index_set_elems(*s).len() {
            Some(index_set_elems(*s)[index as int])
        } else {
            None::<MetaTuple>
        }),
{
    s.get_index(index).copied()
}

/// The registry of interned attribute sets. Handles are indices into the
/// insertion order of the backing set.
pub struct MetadataRegistry {
    set: indexmap::IndexSet<MetaTuple>,
}

impl MetadataRegistry {
    /// The attribute sets interned so far, in handle order.
    pub closed spec fn contents(&self) -> Seq<Metadata> {
        index_set_elems(self.set).map_values(|t: MetaTuple| spec_tuple_to_meta(t))
    }

    /// No two handles denote the same attribute set.
    pub closed spec fn wf(&self) -> bool {
        forall|i: int, j: int|
            0 <= i < j < index_set_elems(self.set).len() ==> index_set_elems(self.set)[i]
                != index_set_elems(self.set)[j]
    }

    /// The handle `intern` hands out for `m` against registry contents `c`:
    /// the index of `m` when it is already interned, else the next fresh
    /// index.
    pub open spec fn spec_handle(c: Seq<Metadata>, m: Metadata) -> int {
        if c.contains(m) {
            c.index_of(m)
        } else {
            c.len() as int
        }
    }

    /// The registry contents after interning `m` against contents `c`:
    /// unchanged when `m` is already interned, else grown by `m` at the end.
    pub open spec fn spec_interned(c: Seq<Metadata>, m: Metadata) -> Seq<Metadata> {
        if c.contains(m) {
            c
        } else {
            c.push(m)
        }
    }

    /// Creates an empty registry.
    pub fn new() -> (r: MetadataRegistry)
        ensures
            r.contents() == Seq::<Metadata>::empty(),
            r.wf(),
    {
        let r = MetadataRegistry { set: index_set_new() };
        proof {
            assert(r.contents() =~= Seq::<Metadata>::empty());
        }
        r
    }

    /// The number of attribute sets interned so far.
    pub fn len(&self) -> (n: usize)
        ensures
            n == self.contents().len(),
    {
        index_set_len(&self.set)
    }

    /// Interns an attribute set: returns the existing handle when an equal
    /// set was interned before, else assigns the next fresh handle. Existing
    /// handles and their meaning never change.
    pub fn intern(&mut self, attrs: Metadata) -> (handle: usize)
        requires
            old(self).wf(),
            old(self).contents().len() < usize::MAX,
        ensures
            final(self).wf(),
            final(self).contents() == Self::spec_interned(old(self).contents(), attrs),
            handle == Self::spec_handle(old(self).contents(), attrs),
            final(self).contents()[handle as int] == attrs,
            handle < final(self).contents().len(),
    {
        let ghost old_elems = index_set_elems(self.set);
        let ghost old_contents = self.contents();
        let t = meta_to_tuple(&attrs);
        let (index, _inserted) = index_set_insert_full(&mut self.set, t);
        proof {
            let elems = index_set_elems(self.set);
            assert(old_contents.len() == old_elems.len());
            assert forall|i: int| 0 <= i < old_elems.len() implies old_contents[i]
                == spec_tuple_to_meta(old_elems[i]) by {}
            if old_elems.contains(t) {
                let j = choose|j: int| 0 <= j < old_elems.len() && old_elems[j] == t;
                assert(old_contents[j] == attrs);
                assert(old_contents.contains(attrs));
                assert(self.contents() =~= Self::spec_interned(old_contents, attrs));
                // the returned index is the unique index of `t`, which is the
                // first index of `attrs` in the contents
                assert(old_elems[index as int] == t);
                assert(old_contents[index as int] == attrs);
                let k = old_contents.index_of(attrs);
                assert(0 <= k < old_contents.len() && old_contents[k] == attrs);
                assert(old_elems[k] == spec_meta_to_tuple(old_contents[k]));
                assert(old_elems[k] == t);
                assert(k == index as int);
            } else {
                // `attrs` was not interned before: its tuple is nowhere in the
                // set, so the set grew by one
                if old_contents.contains(attrs) {
                    let j = old_contents.index_of(attrs);
                    assert(old_elems[j] == spec_meta_to_tuple(old_contents[j]));
                    assert(old_elems.contains(t));
                    assert(false);
                }
                assert(elems =~= old_elems.push(t));
                assert(self.contents() =~= old_contents.push(attrs));
                assert forall|i: int, j: int| 0 <= i < j < elems.len() implies elems[i]
                    != elems[j] by {
                    if j < old_elems.len() {
                    } else {
                        assert(elems[j] == t);
                        assert(!old_elems.contains(t));
                        assert(0 <= i < old_elems.len());
                        assert(elems[i] == old_elems[i]);
                    }
                }
            }
        }
        index
    }

    /// Looks an attribute set up by handle. A handle that this registry did
    /// not produce is a programmer error, excluded by the precondition.
    pub fn resolve(&self, handle: usize) -> (m: Metadata)
        requires
            handle < self.contents().len(),
        ensures
            m == self.contents()[handle as int],
    {
        let r = index_set_get_index(&self.set, handle);
        match r {
            Some(t) => tuple_to_meta(&t),
            None => {
                proof {
                    assert(false);
                }
                Metadata::new(Rgba { r: 0, g: 0, b: 0, a: 0 }, Rgba { r: 0, g: 0, b: 0, a: 0 })
            },
        }
    }
}

/// Interning is deterministic: equal attribute sets always give the same
/// handle, at any later point in the same registry's life, and different
/// attribute sets never share a handle.
pub proof fn lemma_intern_deduplicates(c: Seq<Metadata>, a: Metadata, b: Metadata)
    ensures
        MetadataRegistry::spec_handle(
            MetadataRegistry::spec_interned(c, a),
            a,
        ) == MetadataRegistry::spec_handle(c, a),
        a != b ==> MetadataRegistry::spec_handle(
            MetadataRegistry::spec_interned(MetadataRegistry::spec_interned(c, a), b),
            b,
        ) != MetadataRegistry::spec_handle(MetadataRegistry::spec_interned(c, a), a),
{
    let c1 = MetadataRegistry::spec_interned(c, a);
    // after interning `a` the contents contain `a`, so a second intern finds
    // the same first index
    if c.contains(a) {
        assert(c1 == c);
    } else {
        assert(c1 == c.push(a));
        assert(c1[c.len() as int] == a);
        assert(c1.contains(a));
        lemma_index_of_push_fresh(c, a);
    }
    if a != b {
        let c2 = MetadataRegistry::spec_interned(c1, b);
        let ha = MetadataRegistry::spec_handle(c1, a);
        let hb = MetadataRegistry::spec_handle(c2, b);
        assert(c1.contains(a));
        assert(0 <= ha < c1.len() && c1[ha] == a);
        if c1.contains(b) {
            assert(c2 == c1);
            assert(c2.contains(b));
            assert(0 <= hb < c2.len() && c2[hb] == b) by {
                assert(exists|i: int| 0 <= i < c2.len() && c2[i] == b);
            }
        } else {
            assert(c2 == c1.push(b));
            assert(c2[c1.len() as int] == b);
            assert(c2.contains(b));
            lemma_index_of_push_fresh(c1, b);
            assert(hb == c1.len() as int);
            assert(c2[hb] == b);
        }
        assert(c2[ha] == a);
    }
}

/// Pushing an element that is not yet in a sequence puts its first index at
/// the old length.
proof fn lemma_index_of_push_fresh(c: Seq<Metadata>, a: Metadata)
    requires
        !c.contains(a),
    ensures
        c.push(a).index_of(a) == c.len(),
{
    let c1 = c.push(a);
    assert(c1[c.len() as int] == a);
    assert(c1.contains(a));
    let i = c1.index_of(a);
    assert(0 <= i < c1.len() && c1[i] == a);
    if i < c.len() {
        assert(c[i] == a);
        assert(c.contains(a));
        assert(false);
    }
}

} // verus!
