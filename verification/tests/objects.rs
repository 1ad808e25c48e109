use rustlox::chunk::Chunk;
use rustlox::object::obj_fmt;
use rustlox::object::HeapObject;
use rustlox::object::NativeFn;
use rustlox::object::Obj;
use rustlox::object::ObjNative;
use rustlox::object::ObjArray;
use rustlox::object::ObjType;

#[test]
fn a_new_arena_is_empty() {
    let heap = ObjArray::default();
    assert_eq!(heap.len(), 0);
    assert_eq!(heap.objects, None);
    assert!(heap.strings.is_empty());
}

#[test]
fn equal_strings_are_one_object() {
    let mut heap = ObjArray::default();
    let a = heap.copy_string(b"same");
    let b = heap.copy_string(b"other");
    let c = heap.copy_string(b"same");
    assert_eq!(a, c);
    assert!(a != b);
    assert_eq!(heap.len(), 2);
    assert_eq!(heap.strings, vec![a, b]);
}

#[test]
fn the_empty_string_is_interned_too() {
    let mut heap = ObjArray::default();
    let a = heap.copy_string(b"");
    let b = heap.copy_string(b"");
    assert_eq!(a, b);
    assert_eq!(heap.len(), 1);
    assert_eq!(heap.string_bytes(a), Vec::<u8>::new());
}

#[test]
fn interning_tells_prefixes_apart() {
    let mut heap = ObjArray::default();
    let a = heap.copy_string(b"ab");
    let b = heap.copy_string(b"abc");
    let c = heap.copy_string(b"a");
    assert!(a != b && b != c && a != c);
    assert_eq!(heap.string_bytes(b), b"abc".to_vec());
}

#[test]
fn the_list_links_every_object_once() {
    let mut heap = ObjArray::default();
    let s = heap.copy_string(b"s");
    let f = heap.new_function(Chunk::default());
    let n = heap.new_native(NativeFn::Clock);
    let t = heap.copy_string(b"t");
    assert_eq!((s, f, n, t), (0, 1, 2, 3));
    assert_eq!(heap.objects, Some(3));
    let mut seen = Vec::new();
    let mut at = heap.objects;
    while let Some(i) = at {
        seen.push(i);
        at = match &heap.heap[i] {
            HeapObject::String(o) => o.obj.next,
            HeapObject::Function(o) => o.obj.next,
            HeapObject::Native(o) => o.obj.next,
        };
    }
    assert_eq!(seen, vec![3, 2, 1, 0]);
}

#[test]
fn headers_carry_the_kind() {
    let mut heap = ObjArray::default();
    heap.copy_string(b"s");
    heap.new_function(Chunk::default());
    heap.new_native(NativeFn::Clock);
    assert_eq!(heap.kind(0), Some(ObjType::String));
    assert_eq!(heap.kind(1), Some(ObjType::Function));
    assert_eq!(heap.kind(2), Some(ObjType::Native));
    assert_eq!(heap.kind(3), None);
    match &heap.heap[1] {
        HeapObject::Function(f) => {
            assert_eq!(f.obj.t, ObjType::Function);
            assert_eq!(f.arity, 0);
            assert_eq!(f.name, None);
        }
        _ => panic!("not a function"),
    }
    assert!(heap.is_string(0));
    assert!(!heap.is_string(1));
    assert!(!heap.is_string(9));
}

#[test]
fn freeing_empties_the_arena() {
    let mut heap = ObjArray::default();
    heap.copy_string(b"s");
    heap.new_function(Chunk::default());
    heap.copy_string(b"t");
    heap.free_objects();
    assert_eq!(heap.len(), 0);
    assert_eq!(heap.objects, None);
    assert!(heap.strings.is_empty());
    assert_eq!(heap.copy_string(b"t"), 0);
}

#[test]
fn freeing_the_head_unlinks_it() {
    let mut heap = ObjArray::default();
    heap.new_native(NativeFn::Clock);
    heap.new_native(NativeFn::Clock);
    heap.free_object(1);
    assert_eq!(heap.len(), 1);
    assert_eq!(heap.objects, Some(0));
    heap.free_object(0);
    assert_eq!(heap.objects, None);
}

#[test]
fn printed_forms_of_objects() {
    let mut heap = ObjArray::default();
    let s = heap.copy_string(b"plain");
    let f = heap.new_function(Chunk::default());
    let n = heap.new_native(NativeFn::Clock);
    assert_eq!(obj_fmt(&heap, s), b"plain".to_vec());
    assert_eq!(obj_fmt(&heap, f), b"<script>".to_vec());
    assert_eq!(obj_fmt(&heap, n), b"<native fn>".to_vec());
}

#[test]
fn a_named_function_prints_its_name() {
    let mut heap = ObjArray::default();
    let name = heap.copy_string(b"area");
    let f = heap.new_function(Chunk::default());
    match &mut heap.heap[f] {
        HeapObject::Function(function) => function.name = Some(name),
        _ => panic!("not a function"),
    }
    assert_eq!(obj_fmt(&heap, f), b"<fn area>".to_vec());
}

#[test]
fn write_links_an_object_at_the_head() {
    let mut heap = ObjArray::default();
    heap.copy_string(b"s");
    let header = Obj { t: ObjType::Native, next: heap.objects };
    let index = heap.write(HeapObject::Native(ObjNative { obj: header, function: NativeFn::Clock }));
    assert_eq!(index, 1);
    assert_eq!(heap.objects, Some(1));
    assert_eq!(heap.len(), 2);
    assert_eq!(heap.strings, vec![0]);
    assert_eq!(heap.kind(1), Some(ObjType::Native));
}

#[test]
fn string_objects_hand_out_their_bytes() {
    let mut heap = ObjArray::default();
    let s = heap.copy_string(b"bytes");
    match &heap.heap[s] {
        HeapObject::String(string) => {
            assert_eq!(string.as_str(), b"bytes");
            assert_eq!(string.obj.t, ObjType::String);
            assert_eq!(string.obj.next, None);
        }
        _ => panic!("not a string"),
    }
}
