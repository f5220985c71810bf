use math_core::renderer::arena::{Arena, Buffer};
use math_core::renderer::node::Node;
use math_core::renderer::table::{ArraySpec, ColumnAlignment, ColumnSpec};
use stable_arena::DroplessArena;

#[test]
fn buffer_extend() {
    let arena = Arena::new();
    let mut buffer = Buffer::new(0);
    let mut builder = buffer.get_builder();
    builder.push_char('H');
    builder.push_char('i');
    let str_ref = builder.finish(&arena);
    assert_eq!(str_ref, "Hi");
}

#[test]
fn buffer_manual_reference() {
    let arena = Arena::new();
    let mut buffer = Buffer::new(0);
    let mut builder = buffer.get_builder();
    assert_eq!(builder.len(), 0);
    builder.push_char('H');
    builder.push_char('i');
    builder.push_char('↩'); // This is a multi-byte character.
    assert_eq!(builder.len(), 5);
    let str_ref = builder.finish(&arena);
    assert_eq!(str_ref.len(), 5);
    assert_eq!(str_ref, "Hi↩");
}

struct CycleParticipant<'a> {
    val: i32,
    next: Option<&'a mut CycleParticipant<'a>>,
}

#[test]
fn basic_arena() {
    let arena = DroplessArena::default();

    let a = arena.alloc(CycleParticipant { val: 1, next: None });
    let b = arena.alloc(CycleParticipant { val: 2, next: None });
    a.next = Some(b);
    let c = arena.alloc(CycleParticipant { val: 3, next: None });
    a.next.as_mut().unwrap().next = Some(c);

    assert_eq!(a.val, 1);
    assert_eq!(a.next.as_ref().unwrap().val, 2);
    assert_eq!(a.next.as_ref().unwrap().next.as_ref().unwrap().val, 3);
}

#[test]
fn builder_clears_the_buffer() {
    let arena = Arena::new();
    let mut buffer = Buffer::new(4);
    {
        let mut builder = buffer.get_builder();
        builder.push_str("old");
    }
    let mut builder = buffer.get_builder();
    builder.push_str("new");
    builder.push_str("er");
    assert_eq!(builder.finish(&arena), "newer");
}

#[test]
fn arena_copies() {
    let arena = Arena::new();
    assert_eq!(arena.alloc_str(""), "");
    assert_eq!(arena.alloc_str("abc"), "abc");
    let specs = [
        ColumnSpec::OnlyLine(math_core::renderer::table::LineType::Dashed),
        ColumnSpec::WithContent(ColumnAlignment::Centered, None),
    ];
    let copy = arena.alloc_column_specs(&specs);
    assert_eq!(copy, &specs[..]);
    assert!(arena.alloc_column_specs(&[]).is_empty());
    let spec = arena.alloc_array_spec(ArraySpec { beginning_line: None, is_sub: true, column_spec: copy });
    assert!(spec.is_sub);
    assert_eq!(spec.column_spec.len(), 2);
}

#[test]
fn arena_test() {
    let arena = Arena::new();
    let node = Node::HardcodedMathML("Hello, world!");
    let reference = arena.push(node);
    assert!(matches!(reference, Node::HardcodedMathML("Hello, world!")));
}

#[test]
fn arena_freezes() {
    let arena = Arena::new();
    let _frozen = arena.freeze();
}
