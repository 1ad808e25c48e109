//! Heap objects and the arena that owns them.
//!
//! Every object lives in one arena and is named by its index there. Each
//! carries a header that links it to the object allocated before it, so the
//! arena's `objects` field heads a list that reaches every object once.
//! Strings are interned: the arena never holds two with the same contents.

use vstd::prelude::*;
use vstd::string::*;
use crate::chunk::Chunk;
use crate::chunk::ChunkView;
use crate::text::append_bytes;
use crate::text::bytes_equal;
use crate::text::copy_range;

verus! {

/// The kinds of heap object.
#[derive(Debug, Clone, Copy, PartialEq, Eq, Structural)]
pub enum ObjType {
    String,
    Function,
    Native,
}

/// The header of a heap object: its kind and the next object of the list.
#[derive(Debug, Clone, Copy, PartialEq, Eq, Structural)]
pub struct Obj {
    pub t: ObjType,
    pub next: Option<usize>,
}

/// A string: its header and its bytes.
pub struct ObjString {
    pub obj: Obj,
    pub chars: Vec<u8>,
}

impl ObjString {
    /// The contents of the string.
    pub fn as_str(&self) -> (r: &[u8])
        ensures
            r@ == self.chars@,
    {
        self.chars.as_slice()
    }
}

/// A function: its header, how many parameters it takes, its code, and
/// the string that names it. The script itself has no name.
pub struct ObjFunction {
    pub obj: Obj,
    pub arity: u8,
    pub chunk: Chunk,
    pub name: Option<usize>,
}

/// The functions that the embedding program provides.
#[derive(Debug, Clone, Copy, PartialEq, Eq, Structural)]
pub enum NativeFn {
    /// Seconds since the machine started, as a number.
    Clock,
}

/// A function of the embedding program.
pub struct ObjNative {
    pub obj: Obj,
    pub function: NativeFn,
}

/// An object of the arena.
pub enum HeapObject {
    String(ObjString),
    Function(ObjFunction),
    Native(ObjNative),
}

/// What a function object holds.
pub struct FunctionView {
    pub arity: u8,
    pub chunk: ChunkView,
    pub name: Option<usize>,
}

/// What a heap object holds, without its header.
pub enum ObjView {
    String(Seq<u8>),
    Function(FunctionView),
    Native(NativeFn),
}

impl View for HeapObject {
    type V = ObjView;

    open spec fn view(&self) -> ObjView {
        match self {
            HeapObject::String(s) => ObjView::String(s.chars@),
            HeapObject::Function(f) => ObjView::Function(
                FunctionView { arity: f.arity, chunk: f.chunk@, name: f.name },
            ),
            HeapObject::Native(n) => ObjView::Native(n.function),
        }
    }
}

impl HeapObject {
    /// The header of the object.
    pub open spec fn header(&self) -> Obj {
        match self {
            HeapObject::String(s) => s.obj,
            HeapObject::Function(f) => f.obj,
            HeapObject::Native(n) => n.obj,
        }
    }

    /// The kind that the object is of.
    pub open spec fn kind(&self) -> ObjType {
        match self {
            HeapObject::String(_) => ObjType::String,
            HeapObject::Function(_) => ObjType::Function,
            HeapObject::Native(_) => ObjType::Native,
        }
    }
}

/// The head of the object list of an arena of `len` objects.
pub open spec fn list_head(len: nat) -> Option<usize> {
    if len == 0 {
        None
    } else {
        Some((len - 1) as usize)
    }
}

/// The object list from `head` on: each object, then the one before it.
pub open spec fn list_from(head: Option<usize>) -> Seq<usize>
    decreases
            (match head {
                Some(i) => i + 1,
                None => 0,
            }),
{
    match head {
        None => Seq::<usize>::empty(),
        Some(i) => seq![i] + list_from(list_head(i as nat)),
    }
}

/// No two strings of the heap have the same contents.
pub open spec fn strings_distinct(heap: Seq<ObjView>) -> bool {
    forall|i: int, j: int|
        0 <= i < heap.len() && 0 <= j < heap.len() && heap[i] is String && heap[i] == heap[j]
            ==> i == j
}

/// Whether the heap holds a string with these contents.
pub open spec fn has_string(heap: Seq<ObjView>, s: Seq<u8>) -> bool {
    exists|i: int| 0 <= i < heap.len() && heap[i] == ObjView::String(s)
}

/// The index of the string with these contents.
pub open spec fn string_index(heap: Seq<ObjView>, s: Seq<u8>) -> int {
    choose|i: int| 0 <= i < heap.len() && heap[i] == ObjView::String(s)
}

/// The heap after interning `s`: unchanged when it holds `s` already.
pub open spec fn interned(heap: Seq<ObjView>, s: Seq<u8>) -> Seq<ObjView> {
    if has_string(heap, s) {
        heap
    } else {
        heap.push(ObjView::String(s))
    }
}

/// What `print` writes for the object at `index`.
pub open spec fn obj_text(heap: Seq<ObjView>, index: int) -> Seq<u8> {
    match heap[index] {
        ObjView::String(s) => s,
        ObjView::Function(f) => match f.name {
            None => "<script>".spec_bytes(),
            Some(n) => "<fn ".spec_bytes() + heap[n as int]->String_0 + ">".spec_bytes(),
        },
        ObjView::Native(_) => "<native fn>".spec_bytes(),
    }
}

/// The arena: every heap object, the list that links them, and the
/// intern table.
pub struct ObjArray {
    /// The head of the object list: the object allocated last.
    pub objects: Option<usize>,
    /// The arena.
    pub heap: Vec<HeapObject>,
    /// The intern table: the index of every string, in order of allocation.
    pub strings: Vec<usize>,
}

impl View for ObjArray {
    type V = Seq<ObjView>;

    open spec fn view(&self) -> Seq<ObjView> {
        Seq::new(self.heap@.len(), |i: int| self.heap@[i]@)
    }
}

impl ObjArray {
    /// The list links every object to the one allocated before it, each
    /// header names the kind of its object, the intern table lists exactly
    /// the strings, no two of which are equal, and functions are named by
    /// strings.
    pub open spec fn wf(&self) -> bool {
        &&& self.heap@.len() <= usize::MAX
        &&& self.objects == list_head(self.heap@.len())
        &&& forall|i: int|
            0 <= i < self.heap@.len() ==> (#[trigger] self.heap@[i]).header() == (Obj {
                t: self.heap@[i].kind(),
                next: list_head(i as nat),
            })
        &&& forall|k: int|
            0 <= k < self.strings@.len() ==> (#[trigger] self.strings@[k]) < self.heap@.len()
                && self.heap@[self.strings@[k] as int] is String
        &&& forall|k: int, l: int|
            0 <= k < l < self.strings@.len() ==> self.strings@[k] < self.strings@[l]
        &&& forall|i: int|
            0 <= i < self.heap@.len() && (#[trigger] self.heap@[i]) is String
                ==> self.strings@.contains(i as usize)
        &&& strings_distinct(self@)
        &&& forall|i: int|
            0 <= i < self.heap@.len() ==> match #[trigger] self.heap@[i] {
                HeapObject::Function(f) => match f.name {
                    Some(n) => n < self.heap@.len() && self.heap@[n as int] is String,
                    None => true,
                },
                _ => true,
            }
    }

    /// The object list: every index of the arena, the newest first.
    pub open spec fn object_list(&self) -> Seq<usize> {
        list_from(self.objects)
    }

    /// An arena without objects.
    pub fn default() -> (r: ObjArray)
        ensures
            r.wf(),
            r@ == Seq::<ObjView>::empty(),
            r.strings@ == Seq::<usize>::empty(),
    {
        let r = ObjArray { objects: None, heap: Vec::new(), strings: Vec::new() };
        assert(r@ =~= Seq::<ObjView>::empty());
        r
    }

    /// How many objects the arena holds.
    pub fn len(&self) -> (r: usize)
        ensures
            r == self@.len(),
    {
        self.heap.len()
    }

    /// The kind of the object at `index`, if there is one.
    pub fn kind(&self, index: usize) -> (r: Option<ObjType>)
        ensures
            match r {
                None => index >= self@.len(),
                Some(t) => index < self@.len() && t == self.heap@[index as int].kind(),
            },
    {
        if index >= self.heap.len() {
            return None;
        }
        match &self.heap[index] {
            HeapObject::String(_) => Some(ObjType::String),
            HeapObject::Function(_) => Some(ObjType::Function),
            HeapObject::Native(_) => Some(ObjType::Native),
        }
    }

    /// Whether a string stands at `index`.
    pub fn is_string(&self, index: usize) -> (r: bool)
        ensures
            r == (index < self@.len() && self@[index as int] is String),
    {
        if index >= self.heap.len() {
            return false;
        }
        match &self.heap[index] {
            HeapObject::String(_) => true,
            _ => false,
        }
    }

    /// A copy of the contents of the string at `index`.
    pub fn string_bytes(&self, index: usize) -> (r: Vec<u8>)
        requires
            index < self@.len(),
            self@[index as int] is String,
        ensures
            self@[index as int] == ObjView::String(r@),
    {
        match &self.heap[index] {
            HeapObject::String(s) => {
                let r = copy_range(s.chars.as_slice(), 0, s.chars.len());
                assert(r@ =~= s.chars@);
                r
            },
            _ => Vec::new(),
        }
    }

    /// Empties the intern table, then walks the object list from its head and
    /// frees every object on it.
    pub fn free_objects(&mut self)
        requires
            old(self).wf(),
        ensures
            final(self).wf(),
            final(self)@ == Seq::<ObjView>::empty(),
            final(self).strings@ == Seq::<usize>::empty(),
            final(self).objects is None,
    {
        self.strings.clear();
        let mut obj = self.objects;
        while obj.is_some()
            invariant
                self.heap@.len() <= usize::MAX,
                obj == list_head(self.heap@.len()),
                self.strings@ == Seq::<usize>::empty(),
            decreases self.heap@.len(),
        {
            let index = obj.unwrap();
            let next = if index == 0 {
                None
            } else {
                Some(index - 1)
            };
            self.objects = obj;
            self.free_object(index);
            obj = next;
        }
        self.objects = None;
        assert(self@ =~= Seq::<ObjView>::empty());
    }

    /// Frees the object at the head of the list, and makes the one linked
    /// from it the new head.
    pub fn free_object(&mut self, obj: usize)
        requires
            old(self).objects == Some(obj),
            old(self).objects == list_head(old(self).heap@.len()),
            old(self).heap@.len() <= usize::MAX,
        ensures
            final(self).heap@ == old(self).heap@.drop_last(),
            final(self).objects == list_head(final(self).heap@.len()),
            final(self).strings@ == old(self).strings@,
    {
        self.heap.pop();
        self.objects = if obj == 0 {
            None
        } else {
            Some(obj - 1)
        };
    }

    /// Links a new object in at the head of the list and returns its index.
    /// The object's header must name its kind and the head that was. The
    /// intern table is left as it is: strings come in by `copy_string`.
    pub fn write(&mut self, obj: HeapObject) -> (index: usize)
        requires
            obj.header() == (Obj { t: obj.kind(), next: old(self).objects }),
        ensures
            final(self).heap@.len() <= usize::MAX,
            index == old(self).heap@.len(),
            final(self).heap@ == old(self).heap@.push(obj),
            final(self).objects == Some(index),
            final(self).strings@ == old(self).strings@,
            final(self)@ == old(self)@.push(obj@),
    {
        let index = self.heap.len();
        self.heap.push(obj);
        self.objects = Some(index);
        let _ = self.heap.len();
        assert(self@ =~= old(self)@.push(obj@));
        index
    }

    /// Allocates a native function object.
    pub fn new_native(&mut self, function: NativeFn) -> (index: usize)
        requires
            old(self).wf(),
        ensures
            final(self).wf(),
            index == old(self)@.len(),
            final(self)@ == old(self)@.push(ObjView::Native(function)),
    {
        let obj = Obj { t: ObjType::Native, next: self.objects };
        let index = self.write(HeapObject::Native(ObjNative { obj, function }));
        proof {
            assert(self.heap@.drop_last() =~= old(self).heap@);
            self.lemma_push_keeps_wf(*old(self));
        }
        index
    }

    /// Allocates a function object without a name or parameters, which holds
    /// `chunk`.
    pub fn new_function(&mut self, chunk: Chunk) -> (index: usize)
        requires
            old(self).wf(),
        ensures
            final(self).wf(),
            index == old(self)@.len(),
            final(self)@ == old(self)@.push(
                ObjView::Function(FunctionView { arity: 0, chunk: chunk@, name: None }),
            ),
    {
        let obj = Obj { t: ObjType::Function, next: self.objects };
        let index = self.write(
            HeapObject::Function(ObjFunction { obj, arity: 0, chunk, name: None }),
        );
        proof {
            assert(self.heap@.drop_last() =~= old(self).heap@);
            self.lemma_push_keeps_wf(*old(self));
        }
        index
    }

    /// The arena stays well-formed when an object that is no string, and
    /// names none that is missing, is linked in.
    proof fn lemma_push_keeps_wf(&self, before: ObjArray)
        requires
            before.wf(),
            self.heap@.len() <= usize::MAX,
            self.heap@.len() == before.heap@.len() + 1,
            self.heap@.drop_last() == before.heap@,
            self.strings@ == before.strings@,
            self.objects == Some(before.heap@.len() as usize),
            self.heap@.last().header() == (Obj {
                t: self.heap@.last().kind(),
                next: before.objects,
            }),
            match self.heap@.last() {
                HeapObject::String(_) => false,
                HeapObject::Function(f) => f.name is None,
                HeapObject::Native(_) => true,
            },
        ensures
            self.wf(),
    {
        let n = before.heap@.len() as int;
        assert forall|i: int| 0 <= i < n implies self.heap@[i] == before.heap@[i] by {
            assert(self.heap@.drop_last()[i] == self.heap@[i]);
        }
        assert forall|i: int| 0 <= i < n implies self@[i] == before@[i] by {}
        assert(self.heap@[n] == self.heap@.last());
        assert(!(self@[n] is String));
        assert forall|i: int|
            0 <= i < self.heap@.len() && (#[trigger] self.heap@[i]) is String
                implies self.strings@.contains(i as usize) by {
            assert(i < n);
            assert(before.heap@[i] is String);
        }
        assert forall|i: int, j: int|
            0 <= i < self@.len() && 0 <= j < self@.len() && self@[i] is String && self@[i]
                == self@[j] implies i == j by {
            assert(i < n && j < n);
            assert(before@[i] == before@[j]);
        }
        assert forall|i: int| 0 <= i < self.heap@.len() implies match #[trigger] self.heap@[i] {
            HeapObject::Function(f) => match f.name {
                Some(m) => m < self.heap@.len() && self.heap@[m as int] is String,
                None => true,
            },
            _ => true,
        } by {
            if i < n {
                assert(self.heap@[i] == before.heap@[i]);
                match before.heap@[i] {
                    HeapObject::Function(f) => match f.name {
                        Some(m) => {
                            assert(self.heap@[m as int] == before.heap@[m as int]);
                        },
                        None => {},
                    },
                    _ => {},
                }
            }
        }
        assert forall|i: int| 0 <= i < self.heap@.len() implies (#[trigger] self.heap@[i]).header()
            == (Obj { t: self.heap@[i].kind(), next: list_head(i as nat) }) by {
            if i < n {
                assert(self.heap@[i] == before.heap@[i]);
            }
        }
        assert forall|k: int| 0 <= k < self.strings@.len() implies (#[trigger] self.strings@[k])
            < self.heap@.len() && self.heap@[self.strings@[k] as int] is String by {
            assert(before.strings@[k] < n);
            assert(self.heap@[self.strings@[k] as int] == before.heap@[before.strings@[k] as int]);
        }
    }

    /// Interns `s`: returns the string of the arena with these contents, and
    /// allocates it first if there is none.
    pub fn copy_string(&mut self, s: &[u8]) -> (index: usize)
        requires
            old(self).wf(),
        ensures
            final(self).wf(),
            final(self)@ == interned(old(self)@, s@),
            index < final(self)@.len(),
            final(self)@[index as int] == ObjView::String(s@),
    {
        let mut k: usize = 0;
        while k < self.strings.len()
            invariant
                self.wf(),
                *self == *old(self),
                k <= self.strings@.len(),
                forall|l: int|
                    0 <= l < k ==> self@[self.strings@[l] as int] != ObjView::String(s@),
            decreases self.strings@.len() - k,
        {
            let candidate = self.strings[k];
            match &self.heap[candidate] {
                HeapObject::String(found) => {
                    if bytes_equal(found.chars.as_slice(), s) {
                        assert(self@[candidate as int] == ObjView::String(s@));
                        return candidate;
                    }
                },
                _ => {},
            }
            k += 1;
        }
        proof {
            if has_string(self@, s@) {
                let i = string_index(self@, s@);
                assert(self.heap@[i] is String);
                assert(self.strings@.contains(i as usize));
                let l = choose|l: int|
                    0 <= l < self.strings@.len() && self.strings@[l] == i as usize;
                assert(self@[self.strings@[l] as int] != ObjView::String(s@));
            }
        }
        let chars = copy_range(s, 0, s.len());
        assert(chars@ =~= s@);
        self.allocate_string(chars)
    }

    /// Allocates a string that the arena does not hold yet, and enters it in
    /// the intern table.
    fn allocate_string(&mut self, chars: Vec<u8>) -> (index: usize)
        requires
            old(self).wf(),
            !has_string(old(self)@, chars@),
        ensures
            final(self).wf(),
            index == old(self)@.len(),
            final(self)@ == old(self)@.push(ObjView::String(chars@)),
    {
        let ghost contents = chars@;
        let obj = Obj { t: ObjType::String, next: self.objects };
        let index = self.write(HeapObject::String(ObjString { obj, chars }));
        self.strings.push(index);
        proof {
            let n = old(self).heap@.len() as int;
            assert forall|i: int| 0 <= i < n implies self.heap@[i] == old(self).heap@[i] by {}
            assert forall|i: int| 0 <= i < n implies self@[i] == old(self)@[i] by {}
            assert forall|k: int| 0 <= k < old(self).strings@.len() implies self.strings@[k]
                == old(self).strings@[k] by {}
            assert forall|i: int|
                0 <= i < self.heap@.len() && (#[trigger] self.heap@[i]) is String
                    implies self.strings@.contains(i as usize) by {
                if i < n {
                    assert(old(self).heap@[i] is String);
                    let k = choose|k: int|
                        0 <= k < old(self).strings@.len() && old(self).strings@[k] == i;
                    assert(self.strings@[k] == i);
                } else {
                    assert(self.strings@[self.strings@.len() - 1] == i);
                }
            }
            assert forall|i: int, j: int|
                0 <= i < self@.len() && 0 <= j < self@.len() && self@[i] is String && self@[i]
                    == self@[j] implies i == j by {
                if i < n && j < n {
                    assert(old(self)@[i] == old(self)@[j]);
                } else if i < n {
                    assert(old(self)@[i] == ObjView::String(contents));
                } else if j < n {
                    assert(old(self)@[j] == ObjView::String(contents));
                }
            }
        }
        index
    }
}

/// What `print` writes for the object at `index`.
pub fn obj_fmt(heap: &ObjArray, index: usize) -> (r: Vec<u8>)
    requires
        heap.wf(),
        index < heap@.len(),
    ensures
        r@ == obj_text(heap@, index as int),
{
    let mut out: Vec<u8> = Vec::new();
    match &heap.heap[index] {
        HeapObject::String(s) => {
            append_bytes(&mut out, s.chars.as_slice());
        },
        HeapObject::Function(f) => {
            match f.name {
                None => {
                    append_bytes(&mut out, "<script>".as_bytes());
                },
                Some(n) => {
                    append_bytes(&mut out, "<fn ".as_bytes());
                    match &heap.heap[n] {
                        HeapObject::String(name) => {
                            append_bytes(&mut out, name.chars.as_slice());
                        },
                        _ => {},
                    }
                    append_bytes(&mut out, ">".as_bytes());
                },
            }
        },
        HeapObject::Native(_) => {
            append_bytes(&mut out, "<native fn>".as_bytes());
        },
    }
    assert(out@ =~= obj_text(heap@, index as int));
    out
}

/// Interning a string that is in the heap changes nothing and finds it
/// again; two strings of a well-formed heap with the same contents are one.
pub proof fn lemma_interning_is_idempotent(heap: ObjArray, s: Seq<u8>, i: int, j: int)
    requires
        heap.wf(),
    ensures
        interned(interned(heap@, s), s) == interned(heap@, s),
        has_string(interned(heap@, s), s),
        0 <= i < heap@.len() && 0 <= j < heap@.len() && heap@[i] == ObjView::String(s)
            && heap@[j] == ObjView::String(s) ==> i == j,
{
    let after = interned(heap@, s);
    if has_string(heap@, s) {
    } else {
        assert(after[heap@.len() as int] == ObjView::String(s));
    }
}

/// The object list of a well-formed arena names every object exactly once.
pub proof fn lemma_object_list_complete(heap: ObjArray)
    requires
        heap.wf(),
    ensures
        heap.object_list().len() == heap@.len(),
        heap.object_list().no_duplicates(),
        forall|i: usize| i < heap@.len() ==> heap.object_list().contains(i),
        forall|k: int|
            0 <= k < heap.object_list().len() ==> heap.object_list()[k] == heap@.len() - 1 - k,
{
    lemma_list_from_head(heap.heap@.len());
    let list = heap.object_list();
    let n = heap@.len() as int;
    assert forall|i: usize| i < n implies list.contains(i) by {
        assert(list[n - 1 - i] == i);
    }
}

/// The list from the head of `len` objects counts down from `len - 1`.
pub proof fn lemma_list_from_head(len: nat)
    requires
        len <= usize::MAX,
    ensures
        list_from(list_head(len)).len() == len,
        forall|k: int| 0 <= k < len ==> list_from(list_head(len))[k] == len - 1 - k,
    decreases len,
{
    if len > 0 {
        lemma_list_from_head((len - 1) as nat);
    }
}

} // verus!
