//! Values on the stack, values in boxes, and a collection that owns its heap
//! data and is freed when it is dropped.
use vstd::prelude::*;

verus! {

pub const OBJECT_COUNT: usize = 10;

pub const OBJECT_BYTES: usize = 1024;

pub struct LargeObject {
    pub id: usize,
    pub data: Vec<u8>,
}

/// Two values held directly by their owner.
pub fn stack_allocation() -> (r: (i32, i32))
    ensures
        r == (42i32, 100i32),
{
    let x: i32 = 42;
    let y: i32 = 100;
    (x, y)
}

/// Two values, each in a box of its own.
pub fn heap_allocation() -> (r: (Box<i32>, Box<i32>))
    ensures
        *r.0 == 42,
        *r.1 == 100,
{
    let x = Box::new(42i32);
    let y = Box::new(100i32);
    (x, y)
}

/// `count` zero-filled objects of `bytes` bytes each, numbered from 0.
pub fn make_objects(count: usize, bytes: usize) -> (r: Vec<LargeObject>)
    ensures
        r@.len() == count,
        forall|i: int| 0 <= i < count ==> (#[trigger] r@[i]).id == i && r@[i].data@ == Seq::new(
            bytes as nat,
            |j: int| 0u8,
        ),
{
    let mut objects: Vec<LargeObject> = Vec::new();
    let mut i: usize = 0;
    while i < count
        invariant
            i <= count,
            objects@.len() == i,
            forall|k: int| 0 <= k < i ==> (#[trigger] objects@[k]).id == k && objects@[k].data@
                == Seq::new(bytes as nat, |j: int| 0u8),
        decreases count - i,
    {
        let mut data: Vec<u8> = Vec::new();
        let mut j: usize = 0;
        while j < bytes
            invariant
                j <= bytes,
                data@ == Seq::new(j as nat, |k: int| 0u8),
            decreases bytes - j,
        {
            data.push(0u8);
            proof {
                assert(data@ =~= Seq::new((j + 1) as nat, |k: int| 0u8));
            }
            j = j + 1;
        }
        objects.push(LargeObject { id: i, data });
        i = i + 1;
    }
    objects
}

/// The number of bytes that `objects` hold together.
pub open spec fn bytes_held(objects: Seq<LargeObject>) -> int
    decreases objects.len(),
{
    if objects.len() == 0 {
        0
    } else {
        bytes_held(objects.drop_last()) + objects.last().data@.len()
    }
}

/// What a collection of large objects held before it was dropped.
pub struct MemoryReport {
    pub objects: usize,
    pub total_bytes: usize,
}

pub fn memory_comparison() -> (r: MemoryReport)
    ensures
        r.objects == OBJECT_COUNT,
        r.total_bytes == OBJECT_COUNT * OBJECT_BYTES,
{
    let objects = make_objects(OBJECT_COUNT, OBJECT_BYTES);
    let mut total: usize = 0;
    let mut i: usize = 0;
    while i < objects.len()
        invariant
            i <= objects@.len(),
            objects@.len() == OBJECT_COUNT,
            forall|k: int| 0 <= k < objects@.len() ==> (#[trigger] objects@[k]).data@.len()
                == OBJECT_BYTES,
            total == bytes_held(objects@.subrange(0, i as int)),
            total == i * OBJECT_BYTES,
        decreases objects@.len() - i,
    {
        proof {
            assert(objects@.subrange(0, i + 1).drop_last() =~= objects@.subrange(0, i as int));
        }
        total = total + objects[i].data.len();
        i = i + 1;
    }
    let count = objects.len();
    MemoryReport { objects: count, total_bytes: total }
}

/// What the stack, box and collection demonstrations hold.
pub struct ComparisonReport {
    pub stack: (i32, i32),
    pub heap: (i32, i32),
    pub memory: MemoryReport,
}

pub fn demonstrate_comparisons() -> (r: ComparisonReport)
    ensures
        r.stack == (42i32, 100i32),
        r.heap == (42i32, 100i32),
        r.memory.objects == OBJECT_COUNT,
        r.memory.total_bytes == OBJECT_COUNT * OBJECT_BYTES,
{
    let stack = stack_allocation();
    let (x, y) = heap_allocation();
    let memory = memory_comparison();
    ComparisonReport { stack, heap: (*x, *y), memory }
}

} // verus!
