//! The arena that owns the strings and tables of a converted formula, and a
//! string buffer that builds one string at a time.
use vstd::prelude::*;

use stable_arena::DroplessArena;

use super::node::Node;
use super::table::{ArraySpec, ColumnSpec};

verus! {

/// `stable_arena::DroplessArena`, an arena for values without destructors.
#[verifier::external_type_specification]
#[verifier::external_body]
pub struct ExDroplessArena(DroplessArena);

/// A new, empty `DroplessArena` (its `Default` impl).
#[verifier::external_body]
fn dropless_arena_new() -> DroplessArena {
    DroplessArena::default()
}

/// `DroplessArena::alloc_str`: copies a non-empty string into the arena and
/// returns the copy. It panics on an empty string, hence the requirement.
#[verifier::external_body]
fn dropless_alloc_str<'a>(arena: &'a DroplessArena, src: &str) -> (r: &'a str)
    requires
        src@.len() > 0,
    ensures
        r@ == src@,
{
    arena.alloc_str(src)
}

/// Element types that the arena holds in slices: `Copy` types without
/// destructors that are not zero-sized (the arena panics on zero-sized types).
pub trait ArenaSliceItem: Copy {}

impl ArenaSliceItem for ColumnSpec {}

impl<'a> ArenaSliceItem for &'a Node<'a> {}

/// `DroplessArena::alloc_slice`: copies a non-empty slice into the arena and
/// returns the copy. It panics on an empty slice, hence the requirement, and on
/// zero-sized element types, which `ArenaSliceItem` leaves out.
#[verifier::external_body]
pub(crate) fn dropless_alloc_slice<'a, T: ArenaSliceItem>(arena: &'a DroplessArena, items: &[T]) -> (r: &'a [T])
    requires
        items@.len() > 0,
    ensures
        r@ == items@,
{
    arena.alloc_slice(items)
}

/// `DroplessArena::alloc` on an array specification: moves it into the arena
/// and returns a reference to it.
#[verifier::external_body]
fn dropless_alloc_array_spec<'a>(arena: &'a DroplessArena, spec: ArraySpec<'a>) -> (r: &'a ArraySpec<'a>)
    ensures
        *r == spec,
{
    arena.alloc(spec)
}

/// `DroplessArena::alloc` on a node: moves it into the arena and returns a
/// reference to it. (It panics on types with drop glue or of size zero; a node
/// holds only references and plain values, and is never empty.)
#[verifier::external_body]
fn dropless_alloc_node<'a>(arena: &'a DroplessArena, node: Node<'a>) -> (r: &'a Node<'a>)
    ensures
        *r == node,
{
    arena.alloc(node)
}

/// Owns the pieces of a converted formula.
pub struct Arena {
    pub(crate) inner: DroplessArena,
}

impl Arena {
    /// An empty arena.
    pub fn new() -> Self {
        Arena { inner: dropless_arena_new() }
    }

    /// Moves `node` into the arena.
    pub fn push<'arena>(&'arena self, node: Node<'arena>) -> (r: &'arena Node<'arena>)
        ensures
            *r == node,
    {
        dropless_alloc_node(&self.inner, node)
    }

    /// A copy of `nodes` that lives as long as the arena.
    pub fn push_slice<'arena>(&'arena self, nodes: &[&'arena Node<'arena>]) -> (r: &'arena [&'arena Node<'arena>])
        ensures
            r@ == nodes@,
    {
        if nodes.len() == 0 {
            &[]
        } else {
            dropless_alloc_slice(&self.inner, nodes)
        }
    }

    /// A copy of `src` that lives as long as the arena.
    pub fn alloc_str(&self, src: &str) -> (r: &str)
        ensures
            r@ == src@,
    {
        if src.is_empty() {
            proof {
                reveal_strlit("");
            }
            ""
        } else {
            dropless_alloc_str(&self.inner, src)
        }
    }

    /// A copy of `column_specs` that lives as long as the arena.
    pub fn alloc_column_specs<'arena>(&'arena self, column_specs: &[ColumnSpec]) -> (r: &'arena [ColumnSpec])
        ensures
            r@ == column_specs@,
    {
        if column_specs.len() == 0 {
            &[]
        } else {
            dropless_alloc_slice(&self.inner, column_specs)
        }
    }

    /// Moves `array_spec` into the arena.
    pub fn alloc_array_spec<'arena>(&'arena self, array_spec: ArraySpec<'arena>) -> (r: &'arena ArraySpec<'arena>)
        ensures
            *r == array_spec,
    {
        dropless_alloc_array_spec(&self.inner, array_spec)
    }

    /// The arena, frozen: what it holds stays where it is, and nothing more can
    /// be added to it.
    pub fn freeze(self) -> FrozenArena {
        FrozenArena { inner: self.inner }
    }
}

/// An arena that takes no more allocations.
pub struct FrozenArena {
    inner: DroplessArena,
}

impl Default for Arena {
    fn default() -> Self {
        Self::new()
    }
}

/// A reusable string buffer.
#[derive(Debug)]
pub struct Buffer(String);

impl View for Buffer {
    type V = Seq<char>;

    closed spec fn view(&self) -> Seq<char> {
        self.0@
    }
}

impl Buffer {
    /// An empty buffer with room for `size_hint` bytes.
    pub fn new(size_hint: usize) -> (b: Self)
        ensures
            b@ == Seq::<char>::empty(),
    {
        Buffer(String::with_capacity(size_hint))
    }

    /// Clears the buffer and returns a builder that appends to it.
    pub fn get_builder(&mut self) -> (b: StringBuilder<'_>)
        ensures
            b.contents() == Seq::<char>::empty(),
    {
        StringBuilder::new(self)
    }
}

/// A helper type to safely build a string in the buffer from multiple pieces.
///
/// It takes an exclusive reference to the buffer and clears everything in the
/// buffer before we start building. This guarantees that upon finishing, the
/// buffer contains only what we wrote to it.
pub struct StringBuilder<'buffer> {
    buffer: &'buffer mut Buffer,
}

impl<'buffer> StringBuilder<'buffer> {
    /// What has been written so far.
    pub closed spec fn contents(&self) -> Seq<char> {
        (*self.buffer)@
    }

    /// Clears `buffer` and starts building in it.
    pub fn new(buffer: &'buffer mut Buffer) -> (b: Self)
        ensures
            b.contents() == Seq::<char>::empty(),
    {
        buffer.0.clear();
        StringBuilder { buffer }
    }

    /// Appends `src`.
    pub fn push_str(&mut self, src: &str)
        ensures
            final(self).contents() == old(self).contents() + src@,
    {
        self.buffer.0.push_str(src)
    }

    /// Appends `c`.
    pub fn push_char(&mut self, c: char)
        ensures
            final(self).contents() == old(self).contents().push(c),
    {
        self.buffer.0.push(c)
    }

    /// The length in bytes (UTF-8) of what has been written so far.
    pub fn len(&self) -> (r: usize)
        ensures
            r == vstd::utf8::encode_utf8(self.contents()).len() as usize,
    {
        self.buffer.0.as_str().len()
    }

    /// Copies what was built into `arena`.
    pub fn finish(self, arena: &Arena) -> (r: &str)
        ensures
            r@ == self.contents(),
    {
        arena.alloc_str(self.buffer.0.as_str())
    }
}

} // verus!
