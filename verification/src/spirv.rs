use vstd::prelude::*;

use crate::shader::NO_LOCATION;

verus! {

// ---------------------------------------------------------------------
// Words and instructions
// ---------------------------------------------------------------------

/// The SPIR-V magic number.
pub const SPIRV_MAGIC: u32 = 0x0723_0203;

pub const OP_SOURCE: u32 = 3;
pub const OP_NAME: u32 = 5;
pub const OP_MEMBER_NAME: u32 = 6;
pub const OP_STRING: u32 = 7;
pub const OP_ENTRY_POINT: u32 = 15;
pub const OP_TYPE_INT: u32 = 21;
pub const OP_TYPE_FLOAT: u32 = 22;
pub const OP_TYPE_VECTOR: u32 = 23;
pub const OP_TYPE_MATRIX: u32 = 24;
pub const OP_TYPE_IMAGE: u32 = 25;
pub const OP_TYPE_SAMPLER: u32 = 26;
pub const OP_TYPE_SAMPLED_IMAGE: u32 = 27;
pub const OP_TYPE_ARRAY: u32 = 28;
pub const OP_TYPE_RUNTIME_ARRAY: u32 = 29;
pub const OP_TYPE_STRUCT: u32 = 30;
pub const OP_TYPE_POINTER: u32 = 32;
pub const OP_TYPE_FORWARD_POINTER: u32 = 39;
pub const OP_TYPE_ACCELERATION_STRUCTURE: u32 = 5341;
pub const OP_FUNCTION: u32 = 54;
pub const OP_FUNCTION_END: u32 = 56;
pub const OP_FUNCTION_CALL: u32 = 57;
pub const OP_VARIABLE: u32 = 59;
pub const OP_LOAD: u32 = 61;
pub const OP_STORE: u32 = 62;
pub const OP_COPY_MEMORY: u32 = 63;
pub const OP_COPY_MEMORY_SIZED: u32 = 64;
pub const OP_ACCESS_CHAIN: u32 = 65;
pub const OP_IN_BOUNDS_PTR_ACCESS_CHAIN: u32 = 70;
pub const OP_DECORATE: u32 = 71;
pub const OP_MEMBER_DECORATE: u32 = 72;
pub const OP_LABEL: u32 = 248;
pub const OP_DECORATE_ID: u32 = 332;
pub const OP_DECORATE_STRING: u32 = 5632;
pub const OP_MEMBER_DECORATE_STRING: u32 = 5633;

/// Storage classes.
pub const STORAGE_UNIFORM_CONSTANT: u32 = 0;
pub const STORAGE_INPUT: u32 = 1;
pub const STORAGE_UNIFORM: u32 = 2;
pub const STORAGE_OUTPUT: u32 = 3;
pub const STORAGE_PUSH_CONSTANT: u32 = 9;

/// Decorations.
pub const DECORATION_BLOCK: u32 = 2;
pub const DECORATION_BUFFER_BLOCK: u32 = 3;
pub const DECORATION_LOCATION: u32 = 30;
pub const DECORATION_BINDING: u32 = 33;
pub const DECORATION_DESCRIPTOR_SET: u32 = 34;

/// Image dimensionality of subpass inputs.
pub const DIM_SUBPASS_DATA: u32 = 6;

/// Ids up to this bound are ordered the same as signed and unsigned
/// numbers.
pub const ID_BOUND: u32 = 0x8000_0000;

/// Member indices below this bound.
pub const MEMBER_BOUND: u32 = 0x1_0000;

/// Most array types a module may declare.
pub const MAX_ARRAY_TYPES: u32 = 32;

pub open spec fn opcode(w: u32) -> u32 {
    w % 0x1_0000
}

pub open spec fn word_count(w: u32) -> int {
    (w / 0x1_0000) as int
}

/// One of the four bytes of `w` is zero.
pub open spec fn has_zero_byte(w: u32) -> bool {
    w % 0x100 == 0 || (w / 0x100) % 0x100 == 0 || (w / 0x1_0000) % 0x100 == 0 || w / 0x100_0000 == 0
}

/// The first word of `code[j..end]` that holds a zero byte, `end` where
/// none does.
pub open spec fn first_zero_word(code: Seq<u32>, j: int, end: int) -> int
    decreases end - j,
{
    if j >= end {
        end
    } else if has_zero_byte(code[j]) {
        j
    } else {
        first_zero_word(code, j + 1, end)
    }
}

/// Decorations that carry a literal operand.
pub open spec fn decoration_has_value(d: u32) -> bool {
    d == 6 || d == 7 || d == 11 || d == 30 || d == 33 || d == 34 || d == 35 || d == 43 || d == 5634 || d == 5635
}

/// Type declarations, whose result id is their first operand.
pub open spec fn is_type_op(op: u32) -> bool {
    (19 <= op <= 38) || op == OP_TYPE_ACCELERATION_STRUCTURE
}

/// Constant declarations, whose result id is their second operand.
pub open spec fn is_constant_op(op: u32) -> bool {
    41 <= op <= 46
}

/// Pointer accesses whose pointer is their third operand.
pub open spec fn is_access_op(op: u32) -> bool {
    OP_ACCESS_CHAIN <= op <= OP_IN_BOUNDS_PTR_ACCESS_CHAIN
}

// ---------------------------------------------------------------------
// What the scan keeps
// ---------------------------------------------------------------------

pub const KIND_TYPE: u8 = 0;
pub const KIND_STRUCT: u8 = 1;
pub const KIND_INPUT: u8 = 2;
pub const KIND_OUTPUT: u8 = 3;
pub const KIND_OTHER: u8 = 4;
pub const KIND_POINTER: u8 = 5;

/// What a type holds, through pointers and arrays: nothing a descriptor
/// binds, an image, another opaque resource (a sampler, a sampled
/// image), a struct (of id `target`), or a runtime array.
pub const RES_NONE: u8 = 0;
pub const RES_IMAGE: u8 = 1;
pub const RES_OPAQUE: u8 = 2;
pub const RES_STRUCT: u8 = 3;
pub const RES_RUNTIME_ARRAY: u8 = 4;

/// A declared result id: what declares it, for a struct type its number
/// of members, and for a type what it holds.
#[derive(Clone, Copy, Debug, PartialEq, Eq, Structural)]
pub struct IdInfo {
    pub id: u32,
    pub kind: u8,
    pub members: u32,
    pub res: u8,
    pub target: u32,
}

/// What a scan of the instructions has seen so far: the result ids
/// declared, the interface ids of the entry points, the struct members
/// that names and decorations refer to, the ids decorated `Block`, the
/// structs that uniform variables hold, whether a function header is
/// open, and the number of array types.
pub struct ScanState {
    pub ids: Seq<IdInfo>,
    pub vars: Seq<u32>,
    pub members: Seq<(u32, u32)>,
    pub blocks: Seq<u32>,
    pub need_block: Seq<u32>,
    pub in_header: bool,
    pub arrays: nat,
}

pub open spec fn declared(ids: Seq<IdInfo>, id: u32) -> bool {
    exists|k: int| 0 <= k < ids.len() && (#[trigger] ids[k]).id == id
}

pub open spec fn declared_type(ids: Seq<IdInfo>, id: u32) -> bool {
    exists|k: int|
        0 <= k < ids.len() && (#[trigger] ids[k]).id == id && (ids[k].kind == KIND_TYPE || ids[k].kind == KIND_STRUCT
            || ids[k].kind == KIND_POINTER)
}

/// A declared type that is no pointer.
pub open spec fn declared_value_type(ids: Seq<IdInfo>, id: u32) -> bool {
    exists|k: int|
        0 <= k < ids.len() && (#[trigger] ids[k]).id == id && (ids[k].kind == KIND_TYPE || ids[k].kind == KIND_STRUCT)
}

pub open spec fn declared_io_var(ids: Seq<IdInfo>, id: u32) -> bool {
    exists|k: int|
        0 <= k < ids.len() && (#[trigger] ids[k]).id == id && (ids[k].kind == KIND_INPUT || ids[k].kind == KIND_OUTPUT)
}

pub open spec fn declared_member(ids: Seq<IdInfo>, id: u32, m: u32) -> bool {
    exists|k: int| 0 <= k < ids.len() && (#[trigger] ids[k]).id == id && ids[k].kind == KIND_STRUCT && m < ids[k].members
}

/// A new result id: not zero, below the bound, and not declared before.
pub open spec fn fresh_id(ids: Seq<IdInfo>, id: u32) -> bool {
    id != 0 && id < ID_BOUND && !declared(ids, id)
}

/// The entry of `id`, the last one where there are several.
pub open spec fn lookup(ids: Seq<IdInfo>, id: u32) -> Option<IdInfo>
    decreases ids.len(),
{
    if ids.len() == 0 {
        None
    } else if ids.last().id == id {
        Some(ids.last())
    } else {
        lookup(ids.drop_last(), id)
    }
}

pub open spec fn res_of(ids: Seq<IdInfo>, id: u32) -> u8 {
    match lookup(ids, id) {
        Some(x) => x.res,
        None => RES_NONE,
    }
}

pub open spec fn target_of(ids: Seq<IdInfo>, id: u32) -> u32 {
    match lookup(ids, id) {
        Some(x) => x.target,
        None => 0,
    }
}

pub open spec fn with_info(st: ScanState, x: IdInfo) -> ScanState {
    ScanState { ids: st.ids.push(x), ..st }
}

pub open spec fn with_id(st: ScanState, id: u32, kind: u8, members: u32) -> ScanState {
    with_info(st, IdInfo { id, kind, members, res: RES_NONE, target: 0 })
}

pub open spec fn with_type(st: ScanState, id: u32, res: u8, target: u32) -> ScanState {
    with_info(st, IdInfo { id, kind: KIND_TYPE, members: 0, res, target })
}

/// The kind of a variable of storage class `class`.
pub open spec fn var_kind(class: u32) -> u8 {
    if class == STORAGE_INPUT {
        KIND_INPUT
    } else if class == STORAGE_OUTPUT {
        KIND_OUTPUT
    } else {
        KIND_OTHER
    }
}

/// The operands `code[i + 2 .. i + wc]` of a struct type all name
/// declared types that are no pointers.
pub open spec fn members_declared(code: Seq<u32>, ids: Seq<IdInfo>, i: int, wc: int) -> bool {
    forall|k: int| i + 2 <= k < i + wc ==> declared_value_type(ids, #[trigger] code[k])
}

/// A type declaration at `i`: a new result id, the operands the parser
/// reads present, every type it refers to declared before it, images
/// with a sampled value that descriptors know, sampled images of images,
/// pointers only to types that are no pointers, no pointer inside an
/// array or a struct, no array of runtime arrays, and runtime arrays of
/// structs only directly.
pub open spec fn type_step(code: Seq<u32>, i: int, op: u32, wc: int, st: ScanState) -> Option<ScanState> {
    let id = code[i + 1];
    if wc < 2 || !fresh_id(st.ids, id) {
        None
    } else if op == OP_TYPE_INT {
        if wc >= 4 { Some(with_type(st, id, RES_NONE, 0)) } else { None }
    } else if op == OP_TYPE_FLOAT {
        if wc >= 3 { Some(with_type(st, id, RES_NONE, 0)) } else { None }
    } else if op == OP_TYPE_VECTOR || op == OP_TYPE_MATRIX {
        if wc >= 4 && declared_type(st.ids, code[i + 2]) { Some(with_type(st, id, RES_NONE, 0)) } else { None }
    } else if op == OP_TYPE_IMAGE {
        if wc >= 9 && (code[i + 3] == DIM_SUBPASS_DATA || code[i + 7] == 1 || code[i + 7] == 2) {
            Some(with_type(st, id, RES_IMAGE, 0))
        } else {
            None
        }
    } else if op == OP_TYPE_SAMPLED_IMAGE {
        if wc >= 3 && declared_type(st.ids, code[i + 2]) && res_of(st.ids, code[i + 2]) == RES_IMAGE {
            Some(with_type(st, id, RES_OPAQUE, 0))
        } else {
            None
        }
    } else if op == OP_TYPE_RUNTIME_ARRAY {
        let elem = code[i + 2];
        if wc >= 3 && declared_value_type(st.ids, elem) && (res_of(st.ids, elem) == RES_STRUCT ==> target_of(
            st.ids,
            elem,
        ) == elem) {
            Some(with_type(st, id, RES_RUNTIME_ARRAY, 0))
        } else {
            None
        }
    } else if op == OP_TYPE_ARRAY {
        let elem = code[i + 2];
        if wc >= 4 && declared_value_type(st.ids, elem) && res_of(st.ids, elem) != RES_RUNTIME_ARRAY && declared(
            st.ids,
            code[i + 3],
        ) && st.arrays < MAX_ARRAY_TYPES {
            Some(ScanState { arrays: st.arrays + 1, ..with_type(st, id, res_of(st.ids, elem), target_of(st.ids, elem)) })
        } else {
            None
        }
    } else if op == OP_TYPE_STRUCT {
        if members_declared(code, st.ids, i, wc) {
            Some(with_info(st, IdInfo { id, kind: KIND_STRUCT, members: (wc - 2) as u32, res: RES_STRUCT, target: id }))
        } else {
            None
        }
    } else if op == OP_TYPE_POINTER {
        let pointee = code[i + 3];
        if wc >= 4 && declared_value_type(st.ids, pointee) {
            Some(
                with_info(
                    st,
                    IdInfo {
                        id,
                        kind: KIND_POINTER,
                        members: 0,
                        res: res_of(st.ids, pointee),
                        target: target_of(st.ids, pointee),
                    },
                ),
            )
        } else {
            None
        }
    } else if op == OP_TYPE_SAMPLER || op == OP_TYPE_ACCELERATION_STRUCTURE {
        Some(with_type(st, id, RES_OPAQUE, 0))
    } else {
        Some(with_type(st, id, RES_NONE, 0))
    }
}

/// Instructions inside functions and decorations.
pub open spec fn body_step(code: Seq<u32>, i: int, op: u32, wc: int, st: ScanState) -> Option<ScanState> {
    if op == OP_FUNCTION_CALL || is_access_op(op) {
        if wc >= 4 && code[i + 3] < ID_BOUND { Some(st) } else { None }
    } else if op == OP_LOAD {
        if wc >= 4 && code[i + 3] < ID_BOUND && fresh_id(st.ids, code[i + 2]) {
            Some(with_id(st, code[i + 2], KIND_OTHER, 0))
        } else {
            None
        }
    } else if op == OP_STORE {
        if wc >= 3 && code[i + 2] < ID_BOUND { Some(st) } else { None }
    } else if op == OP_COPY_MEMORY || op == OP_COPY_MEMORY_SIZED {
        if wc >= 4 && code[i + 2] < ID_BOUND && code[i + 3] < ID_BOUND { Some(st) } else { None }
    } else if op == OP_DECORATE {
        let d = code[i + 2];
        if wc >= 3 && (decoration_has_value(d) ==> wc >= 4) && d != DECORATION_BUFFER_BLOCK && ((d
            == DECORATION_BINDING || d == DECORATION_DESCRIPTOR_SET) ==> code[i + 3] < ID_BOUND) {
            if d == DECORATION_BLOCK {
                Some(ScanState { blocks: st.blocks.push(code[i + 1]), ..st })
            } else {
                Some(st)
            }
        } else {
            None
        }
    } else if op == OP_MEMBER_DECORATE {
        if wc >= 4 && code[i + 2] < MEMBER_BOUND && (decoration_has_value(code[i + 3]) ==> wc >= 5) {
            Some(ScanState { members: st.members.push((code[i + 1], code[i + 2])), ..st })
        } else {
            None
        }
    } else {
        Some(st)
    }
}

/// The instruction at `i`, of opcode `op` and `wc` words, is admitted,
/// and what the scan knows afterwards.
pub open spec fn step(code: Seq<u32>, i: int, op: u32, wc: int, st: ScanState) -> Option<ScanState> {
    if op == OP_TYPE_FORWARD_POINTER || op == OP_DECORATE_ID || op == OP_DECORATE_STRING || op
        == OP_MEMBER_DECORATE_STRING {
        None
    } else if op == OP_STRING {
        if wc >= 3 && first_zero_word(code, i + 2, i + wc) < i + wc { Some(st) } else { None }
    } else if op == OP_SOURCE || op == OP_NAME {
        if wc >= 3 { Some(st) } else { None }
    } else if op == OP_MEMBER_NAME {
        if wc >= 3 && code[i + 2] < MEMBER_BOUND {
            Some(ScanState { members: st.members.push((code[i + 1], code[i + 2])), ..st })
        } else {
            None
        }
    } else if op == OP_ENTRY_POINT {
        let z = first_zero_word(code, i + 3, i + wc);
        if wc >= 4 && z < i + wc && i + wc + 3 < code.len() {
            Some(ScanState { vars: st.vars + code.subrange(z + 1, i + wc), ..st })
        } else {
            None
        }
    } else if is_type_op(op) {
        type_step(code, i, op, wc, st)
    } else if is_constant_op(op) {
        if wc >= 3 && fresh_id(st.ids, code[i + 2]) { Some(with_id(st, code[i + 2], KIND_OTHER, 0)) } else { None }
    } else if op == OP_FUNCTION {
        if wc >= 3 && !st.in_header && fresh_id(st.ids, code[i + 2]) {
            Some(ScanState { in_header: true, ..with_id(st, code[i + 2], KIND_OTHER, 0) })
        } else {
            None
        }
    } else if op == OP_LABEL || op == OP_FUNCTION_END {
        Some(ScanState { in_header: false, ..st })
    } else if op == OP_VARIABLE {
        let class = code[i + 3];
        let ty = code[i + 1];
        if wc < 4 || !fresh_id(st.ids, code[i + 2]) || !declared_type(st.ids, ty) || class == STORAGE_PUSH_CONSTANT {
            None
        } else if class == STORAGE_UNIFORM_CONSTANT || class == STORAGE_UNIFORM {
            let res = res_of(st.ids, ty);
            if res == RES_IMAGE || res == RES_OPAQUE {
                Some(with_id(st, code[i + 2], KIND_OTHER, 0))
            } else if res == RES_STRUCT {
                Some(
                    ScanState {
                        need_block: st.need_block.push(target_of(st.ids, ty)),
                        ..with_id(st, code[i + 2], KIND_OTHER, 0)
                    },
                )
            } else {
                None
            }
        } else {
            Some(with_id(st, code[i + 2], var_kind(class), 0))
        }
    } else {
        body_step(code, i, op, wc, st)
    }
}

/// At the end of the code: every interface id names an input or output
/// variable, every struct that a uniform holds is decorated `Block`, and
/// every struct member named or decorated exists.
pub open spec fn scan_done(st: ScanState) -> bool {
    &&& forall|k: int| 0 <= k < st.vars.len() ==> declared_io_var(st.ids, #[trigger] st.vars[k])
    &&& forall|k: int| 0 <= k < st.need_block.len() ==> st.blocks.contains(#[trigger] st.need_block[k])
    &&& forall|k: int|
        0 <= k < st.members.len() ==> declared_member(st.ids, (#[trigger] st.members[k]).0, st.members[k].1)
}

pub open spec fn scan_from(code: Seq<u32>, i: int, st: ScanState) -> bool
    decreases code.len() - i,
{
    if i < 0 || i > code.len() {
        false
    } else if i == code.len() {
        scan_done(st)
    } else {
        let op = opcode(code[i]);
        let wc = word_count(code[i]);
        if wc == 0 || i + wc > code.len() {
            false
        } else {
            match step(code, i, op, wc, st) {
                Some(next) => scan_from(code, i + wc, next),
                None => false,
            }
        }
    }
}

pub open spec fn empty_scan() -> ScanState {
    ScanState {
        ids: Seq::empty(),
        vars: Seq::empty(),
        members: Seq::empty(),
        blocks: Seq::empty(),
        need_block: Seq::empty(),
        in_header: false,
        arrays: 0,
    }
}

/// The SPIR-V that this library hands to `spirv_reflect`: the magic
/// number and the header, then instructions that lie end to end, where
///
/// - the operands that reflection reads are present, string literals
///   end inside their instruction, and each entry point is followed by
///   at least four more words;
/// - result ids are non-zero, distinct and below 2^31, and so are the
///   pointer and callee operands that reflection sorts;
/// - a type refers only to types declared before it, there are at most
///   32 array types, no forward pointer, and pointers only as the types
///   of variables and values, not inside arrays, structs or pointers;
/// - member names and decorations name existing struct members, below
///   2^16;
/// - no function is declared inside another's header;
/// - every interface id of an entry point names an input or output
///   variable of a declared type;
/// - every uniform or uniform constant variable holds, through pointers
///   and arrays, an image, a sampler, a sampled image or a struct
///   decorated `Block`; images have a sampled value of 1 or 2 unless
///   they are subpass inputs; no struct is decorated `BufferBlock`;
///   descriptor set and binding numbers are below 2^31; no array holds
///   a runtime array;
/// - no variable is a push constant.
pub open spec fn spirv_reflectable(code: Seq<u32>) -> bool {
    code.len() >= 5 && code[0] == SPIRV_MAGIC && scan_from(code, 5, empty_scan())
}

// ---------------------------------------------------------------------
// Checking reflectable code
// ---------------------------------------------------------------------

/// No two declared ids are equal.
pub open spec fn unique_ids(ids: Seq<IdInfo>) -> bool {
    forall|a: int, b: int| 0 <= a < b < ids.len() ==> (#[trigger] ids[a]).id != (#[trigger] ids[b]).id
}

fn zero_byte(w: u32) -> (r: bool)
    ensures
        r == has_zero_byte(w),
{
    w % 0x100 == 0 || (w / 0x100) % 0x100 == 0 || (w / 0x1_0000) % 0x100 == 0 || w / 0x100_0000 == 0
}

fn first_zero(code: &[u32], j: usize, end: usize) -> (r: usize)
    requires
        j <= end <= code@.len(),
    ensures
        r == first_zero_word(code@, j as int, end as int),
{
    let mut k = j;
    while k < end
        invariant
            j <= k <= end,
            end <= code@.len(),
            first_zero_word(code@, j as int, end as int) == first_zero_word(code@, k as int, end as int),
        decreases end - k,
    {
        if zero_byte(code[k]) {
            return k;
        }
        k = k + 1;
    }
    k
}

fn find_id(ids: &Vec<IdInfo>, id: u32) -> (r: Option<usize>)
    ensures
        r matches Some(k) ==> k < ids@.len() && ids@[k as int].id == id,
        r is None ==> !declared(ids@, id),
{
    let mut k: usize = 0;
    while k < ids.len()
        invariant
            k <= ids@.len(),
            forall|j: int| 0 <= j < k ==> (#[trigger] ids@[j]).id != id,
        decreases ids@.len() - k,
    {
        if ids[k].id == id {
            return Some(k);
        }
        k = k + 1;
    }
    None
}

/// What `find_id` gives is the only entry of `id`.
proof fn lemma_unique_at(ids: Seq<IdInfo>, id: u32, k: int, j: int)
    requires
        unique_ids(ids),
        0 <= k < ids.len(),
        0 <= j < ids.len(),
        ids[k].id == id,
        ids[j].id == id,
    ensures
        j == k,
{
    if j < k {
        assert(ids[j].id != ids[k].id);
    }
    if k < j {
        assert(ids[k].id != ids[j].id);
    }
}

fn has_type(ids: &Vec<IdInfo>, id: u32) -> (r: bool)
    requires
        unique_ids(ids@),
    ensures
        r == declared_type(ids@, id),
{
    match find_id(ids, id) {
        Some(k) => {
            proof {
                if declared_type(ids@, id) {
                    let j = choose|j: int|
                        0 <= j < ids@.len() && (#[trigger] ids@[j]).id == id && (ids@[j].kind == KIND_TYPE
                            || ids@[j].kind == KIND_STRUCT || ids@[j].kind == KIND_POINTER);
                    lemma_unique_at(ids@, id, k as int, j);
                }
            }
            ids[k].kind == KIND_TYPE || ids[k].kind == KIND_STRUCT || ids[k].kind == KIND_POINTER
        },
        None => false,
    }
}

fn has_value_type(ids: &Vec<IdInfo>, id: u32) -> (r: bool)
    requires
        unique_ids(ids@),
    ensures
        r == declared_value_type(ids@, id),
{
    match find_id(ids, id) {
        Some(k) => {
            proof {
                if declared_value_type(ids@, id) {
                    let j = choose|j: int|
                        0 <= j < ids@.len() && (#[trigger] ids@[j]).id == id && (ids@[j].kind == KIND_TYPE
                            || ids@[j].kind == KIND_STRUCT);
                    lemma_unique_at(ids@, id, k as int, j);
                }
            }
            ids[k].kind == KIND_TYPE || ids[k].kind == KIND_STRUCT
        },
        None => false,
    }
}

fn has_io_var(ids: &Vec<IdInfo>, id: u32) -> (r: bool)
    requires
        unique_ids(ids@),
    ensures
        r == declared_io_var(ids@, id),
{
    match find_id(ids, id) {
        Some(k) => {
            proof {
                if declared_io_var(ids@, id) {
                    let j = choose|j: int|
                        0 <= j < ids@.len() && (#[trigger] ids@[j]).id == id && (ids@[j].kind == KIND_INPUT
                            || ids@[j].kind == KIND_OUTPUT);
                    lemma_unique_at(ids@, id, k as int, j);
                }
            }
            ids[k].kind == KIND_INPUT || ids[k].kind == KIND_OUTPUT
        },
        None => false,
    }
}

fn has_member(ids: &Vec<IdInfo>, id: u32, m: u32) -> (r: bool)
    requires
        unique_ids(ids@),
    ensures
        r == declared_member(ids@, id, m),
{
    match find_id(ids, id) {
        Some(k) => {
            proof {
                if declared_member(ids@, id, m) {
                    let j = choose|j: int|
                        0 <= j < ids@.len() && (#[trigger] ids@[j]).id == id && ids@[j].kind == KIND_STRUCT && m
                            < ids@[j].members;
                    lemma_unique_at(ids@, id, k as int, j);
                }
            }
            ids[k].kind == KIND_STRUCT && m < ids[k].members
        },
        None => false,
    }
}

fn is_fresh(ids: &Vec<IdInfo>, id: u32) -> (r: bool)
    ensures
        r == fresh_id(ids@, id),
{
    id != 0 && id < ID_BOUND && find_id(ids, id).is_none()
}

proof fn lemma_lookup(ids: Seq<IdInfo>, id: u32, k: int)
    requires
        unique_ids(ids),
        0 <= k < ids.len(),
        ids[k].id == id,
    ensures
        lookup(ids, id) == Some(ids[k]),
    decreases ids.len(),
{
    let n = ids.len() - 1;
    if k < n {
        assert(ids[k].id != ids[n].id);
        let t = ids.drop_last();
        assert forall|a: int, b: int| 0 <= a < b < t.len() implies (#[trigger] t[a]).id != (#[trigger] t[b]).id by {
            assert(t[a] == ids[a] && t[b] == ids[b]);
        }
        lemma_lookup(t, id, k);
    }
}

proof fn lemma_lookup_none(ids: Seq<IdInfo>, id: u32)
    requires
        !declared(ids, id),
    ensures
        lookup(ids, id) is None,
    decreases ids.len(),
{
    if ids.len() > 0 {
        let t = ids.drop_last();
        assert(ids[ids.len() - 1].id != id);
        assert forall|k: int| 0 <= k < t.len() implies (#[trigger] t[k]).id != id by {
            assert(t[k] == ids[k]);
        }
        lemma_lookup_none(t, id);
    }
}

fn lookup_info(ids: &Vec<IdInfo>, id: u32) -> (r: Option<IdInfo>)
    requires
        unique_ids(ids@),
    ensures
        r == lookup(ids@, id),
{
    match find_id(ids, id) {
        Some(k) => {
            proof {
                lemma_lookup(ids@, id, k as int);
            }
            Some(ids[k])
        },
        None => {
            proof {
                lemma_lookup_none(ids@, id);
            }
            None
        },
    }
}

fn res_exec(ids: &Vec<IdInfo>, id: u32) -> (r: (u8, u32))
    requires
        unique_ids(ids@),
    ensures
        r.0 == res_of(ids@, id),
        r.1 == target_of(ids@, id),
{
    match lookup_info(ids, id) {
        Some(x) => (x.res, x.target),
        None => (RES_NONE, 0),
    }
}

/// The scan's state, held in vectors.
struct Scan {
    ids: Vec<IdInfo>,
    vars: Vec<u32>,
    members: Vec<(u32, u32)>,
    blocks: Vec<u32>,
    need_block: Vec<u32>,
    in_header: bool,
    arrays: u32,
}

impl Scan {
    spec fn state(&self) -> ScanState {
        ScanState {
            ids: self.ids@,
            vars: self.vars@,
            members: self.members@,
            blocks: self.blocks@,
            need_block: self.need_block@,
            in_header: self.in_header,
            arrays: self.arrays as nat,
        }
    }

    spec fn inv(&self) -> bool {
        unique_ids(self.ids@) && self.arrays <= MAX_ARRAY_TYPES
    }

    /// Declares a fresh id that is no type.
    fn declare(&mut self, id: u32, kind: u8, members: u32)
        requires
            old(self).inv(),
            fresh_id(old(self).ids@, id),
        ensures
            final(self).inv(),
            final(self).state() == with_id(old(self).state(), id, kind, members),
    {
        self.declare_info(IdInfo { id, kind, members, res: RES_NONE, target: 0 });
    }

    /// Declares a fresh id.
    fn declare_info(&mut self, x: IdInfo)
        requires
            old(self).inv(),
            fresh_id(old(self).ids@, x.id),
        ensures
            final(self).inv(),
            final(self).state() == with_info(old(self).state(), x),
    {
        let id = x.id;
        let ghost before = self.ids@;
        self.ids.push(x);
        proof {
            assert forall|a: int, b: int| 0 <= a < b < self.ids@.len() implies (#[trigger] self.ids@[a]).id
                != (#[trigger] self.ids@[b]).id by {
                if b == before.len() {
                    assert(before[a] == self.ids@[a]);
                    if before[a].id == id {
                        assert(declared(before, id));
                    }
                } else {
                    assert(before[a] == self.ids@[a] && before[b] == self.ids@[b]);
                }
            }
        }
    }
}

fn all_members_declared(code: &[u32], ids: &Vec<IdInfo>, i: usize, wc: usize) -> (r: bool)
    requires
        unique_ids(ids@),
        i + wc <= code@.len(),
    ensures
        r == members_declared(code@, ids@, i as int, wc as int),
{
    let n = code.len();
    if wc < 2 {
        return true;
    }
    let end = i + wc;
    let mut k = i + 2;
    while k < end
        invariant
            i + 2 <= k,
            end == i + wc,
            i + wc <= code@.len(),
            unique_ids(ids@),
            forall|j: int| i + 2 <= j < k ==> declared_value_type(ids@, #[trigger] code@[j]),
        decreases end - k,
    {
        if !has_value_type(ids, code[k]) {
            return false;
        }
        k = k + 1;
    }
    true
}

fn type_step_exec(code: &[u32], i: usize, op: u32, wc: usize, sc: &mut Scan) -> (ok: bool)
    requires
        old(sc).inv(),
        i + wc <= code@.len(),
        is_type_op(op),
        wc < 0x1_0000,
    ensures
        final(sc).inv(),
        ok == type_step(code@, i as int, op, wc as int, old(sc).state()) is Some,
        ok ==> final(sc).state() == type_step(code@, i as int, op, wc as int, old(sc).state())->0,
{
    let n = code.len();
    if wc < 2 || !is_fresh(&sc.ids, code[i + 1]) {
        return false;
    }
    let id = code[i + 1];
    let mut res = RES_NONE;
    let mut target: u32 = 0;
    if op == OP_TYPE_INT {
        if wc < 4 {
            return false;
        }
    } else if op == OP_TYPE_FLOAT {
        if wc < 3 {
            return false;
        }
    } else if op == OP_TYPE_VECTOR || op == OP_TYPE_MATRIX {
        if wc < 4 || !has_type(&sc.ids, code[i + 2]) {
            return false;
        }
    } else if op == OP_TYPE_IMAGE {
        if wc < 9 || !(code[i + 3] == DIM_SUBPASS_DATA || code[i + 7] == 1 || code[i + 7] == 2) {
            return false;
        }
        res = RES_IMAGE;
    } else if op == OP_TYPE_SAMPLED_IMAGE {
        if wc < 3 || !has_type(&sc.ids, code[i + 2]) || res_exec(&sc.ids, code[i + 2]).0 != RES_IMAGE {
            return false;
        }
        res = RES_OPAQUE;
    } else if op == OP_TYPE_RUNTIME_ARRAY {
        if wc < 3 || !has_value_type(&sc.ids, code[i + 2]) {
            return false;
        }
        let (r, t) = res_exec(&sc.ids, code[i + 2]);
        if r == RES_STRUCT && t != code[i + 2] {
            return false;
        }
        res = RES_RUNTIME_ARRAY;
    } else if op == OP_TYPE_ARRAY {
        if wc < 4 || !has_value_type(&sc.ids, code[i + 2]) || find_id(&sc.ids, code[i + 3]).is_none() || sc.arrays
            >= MAX_ARRAY_TYPES {
            return false;
        }
        let (r, t) = res_exec(&sc.ids, code[i + 2]);
        if r == RES_RUNTIME_ARRAY {
            return false;
        }
        sc.declare_info(IdInfo { id, kind: KIND_TYPE, members: 0, res: r, target: t });
        sc.arrays = sc.arrays + 1;
        return true;
    } else if op == OP_TYPE_STRUCT {
        if !all_members_declared(code, &sc.ids, i, wc) {
            return false;
        }
        sc.declare_info(IdInfo { id, kind: KIND_STRUCT, members: (wc - 2) as u32, res: RES_STRUCT, target: id });
        return true;
    } else if op == OP_TYPE_POINTER {
        if wc < 4 || !has_value_type(&sc.ids, code[i + 3]) {
            return false;
        }
        let (r, t) = res_exec(&sc.ids, code[i + 3]);
        sc.declare_info(IdInfo { id, kind: KIND_POINTER, members: 0, res: r, target: t });
        return true;
    } else if op == OP_TYPE_SAMPLER || op == OP_TYPE_ACCELERATION_STRUCTURE {
        res = RES_OPAQUE;
    }
    sc.declare_info(IdInfo { id, kind: KIND_TYPE, members: 0, res, target });
    true
}

fn body_step_exec(code: &[u32], i: usize, op: u32, wc: usize, sc: &mut Scan) -> (ok: bool)
    requires
        old(sc).inv(),
        1 <= wc,
        i + wc <= code@.len(),
    ensures
        final(sc).inv(),
        ok == body_step(code@, i as int, op, wc as int, old(sc).state()) is Some,
        ok ==> final(sc).state() == body_step(code@, i as int, op, wc as int, old(sc).state())->0,
{
    let n = code.len();
    if op == OP_FUNCTION_CALL || (OP_ACCESS_CHAIN <= op && op <= OP_IN_BOUNDS_PTR_ACCESS_CHAIN) {
        wc >= 4 && code[i + 3] < ID_BOUND
    } else if op == OP_LOAD {
        if wc >= 4 && code[i + 3] < ID_BOUND && is_fresh(&sc.ids, code[i + 2]) {
            sc.declare(code[i + 2], KIND_OTHER, 0);
            true
        } else {
            false
        }
    } else if op == OP_STORE {
        wc >= 3 && code[i + 2] < ID_BOUND
    } else if op == OP_COPY_MEMORY || op == OP_COPY_MEMORY_SIZED {
        wc >= 4 && code[i + 2] < ID_BOUND && code[i + 3] < ID_BOUND
    } else if op == OP_DECORATE {
        if wc < 3 {
            return false;
        }
        let d = code[i + 2];
        if (has_value(d) && wc < 4) || d == DECORATION_BUFFER_BLOCK {
            return false;
        }
        if (d == DECORATION_BINDING || d == DECORATION_DESCRIPTOR_SET) && code[i + 3] >= ID_BOUND {
            return false;
        }
        if d == DECORATION_BLOCK {
            sc.blocks.push(code[i + 1]);
        }
        true
    } else if op == OP_MEMBER_DECORATE {
        if wc >= 4 && code[i + 2] < MEMBER_BOUND && (!has_value(code[i + 3]) || wc >= 5) {
            sc.members.push((code[i + 1], code[i + 2]));
            true
        } else {
            false
        }
    } else {
        true
    }
}

fn has_value(d: u32) -> (r: bool)
    ensures
        r == decoration_has_value(d),
{
    d == 6 || d == 7 || d == 11 || d == 30 || d == 33 || d == 34 || d == 35 || d == 43 || d == 5634 || d == 5635
}

fn step_exec(code: &[u32], i: usize, op: u32, wc: usize, sc: &mut Scan) -> (ok: bool)
    requires
        old(sc).inv(),
        1 <= wc < 0x1_0000,
        i + wc <= code@.len(),
    ensures
        final(sc).inv(),
        ok == step(code@, i as int, op, wc as int, old(sc).state()) is Some,
        ok ==> final(sc).state() == step(code@, i as int, op, wc as int, old(sc).state())->0,
{
    let n = code.len();
    if op == OP_TYPE_FORWARD_POINTER || op == OP_DECORATE_ID || op == OP_DECORATE_STRING || op
        == OP_MEMBER_DECORATE_STRING {
        false
    } else if op == OP_STRING {
        wc >= 3 && first_zero(code, i + 2, i + wc) < i + wc
    } else if op == OP_SOURCE || op == 5 {
        wc >= 3
    } else if op == OP_MEMBER_NAME {
        if wc >= 3 && code[i + 2] < MEMBER_BOUND {
            sc.members.push((code[i + 1], code[i + 2]));
            true
        } else {
            false
        }
    } else if op == OP_ENTRY_POINT {
        if wc < 4 {
            return false;
        }
        let end = i + wc;
        let z = first_zero(code, i + 3, end);
        if !(z < end && n - end > 3) {
            return false;
        }
        let ghost before = sc.vars@;
        let mut k = z + 1;
        while k < end
            invariant
                z + 1 <= k <= end,
                end == i + wc,
                end <= code@.len(),
                sc.vars@ == before + code@.subrange(z + 1, k as int),
                before == old(sc).vars@,
                sc.ids@ == old(sc).ids@,
                sc.members@ == old(sc).members@,
                sc.blocks@ == old(sc).blocks@,
                sc.need_block@ == old(sc).need_block@,
                sc.in_header == old(sc).in_header,
                sc.arrays == old(sc).arrays,
            decreases end - k,
        {
            sc.vars.push(code[k]);
            k = k + 1;
            proof {
                assert(sc.vars@ =~= before + code@.subrange(z + 1, k as int));
            }
        }
        true
    } else if (19 <= op && op <= 38) || op == OP_TYPE_ACCELERATION_STRUCTURE {
        type_step_exec(code, i, op, wc, sc)
    } else if 41 <= op && op <= 46 {
        if wc >= 3 && is_fresh(&sc.ids, code[i + 2]) {
            sc.declare(code[i + 2], KIND_OTHER, 0);
            true
        } else {
            false
        }
    } else if op == OP_FUNCTION {
        if wc >= 3 && !sc.in_header && is_fresh(&sc.ids, code[i + 2]) {
            sc.declare(code[i + 2], KIND_OTHER, 0);
            sc.in_header = true;
            true
        } else {
            false
        }
    } else if op == OP_LABEL || op == OP_FUNCTION_END {
        sc.in_header = false;
        true
    } else if op == OP_VARIABLE {
        if wc < 4 {
            return false;
        }
        let class = code[i + 3];
        let ty = code[i + 1];
        if !is_fresh(&sc.ids, code[i + 2]) || !has_type(&sc.ids, ty) || class == STORAGE_PUSH_CONSTANT {
            return false;
        }
        if class == STORAGE_UNIFORM_CONSTANT || class == STORAGE_UNIFORM {
            let (res, target) = res_exec(&sc.ids, ty);
            if res == RES_IMAGE || res == RES_OPAQUE {
                sc.declare(code[i + 2], KIND_OTHER, 0);
                true
            } else if res == RES_STRUCT {
                sc.declare(code[i + 2], KIND_OTHER, 0);
                sc.need_block.push(target);
                true
            } else {
                false
            }
        } else {
            let kind = if class == STORAGE_INPUT {
                KIND_INPUT
            } else if class == STORAGE_OUTPUT {
                KIND_OUTPUT
            } else {
                KIND_OTHER
            };
            sc.declare(code[i + 2], kind, 0);
            true
        }
    } else {
        body_step_exec(code, i, op, wc, sc)
    }
}

/// Whether `code` lies in the SPIR-V that the library hands to
/// `spirv_reflect`.
pub fn is_reflectable_spirv(code: &[u32]) -> (r: bool)
    ensures
        r == spirv_reflectable(code@),
{
    let n = code.len();
    if n < 5 || code[0] != SPIRV_MAGIC {
        return false;
    }
    let mut sc = Scan {
        ids: Vec::new(),
        vars: Vec::new(),
        members: Vec::new(),
        blocks: Vec::new(),
        need_block: Vec::new(),
        in_header: false,
        arrays: 0,
    };
    proof {
        assert(sc.state() =~= empty_scan());
    }
    let mut i: usize = 5;
    while i < n
        invariant
            5 <= i <= n,
            n == code@.len(),
            sc.inv(),
            spirv_reflectable(code@) == scan_from(code@, i as int, sc.state()),
        decreases n - i,
    {
        let w = code[i];
        let op = w % 0x1_0000;
        let wc = (w / 0x1_0000) as usize;
        if wc == 0 || wc > n - i {
            return false;
        }
        if !step_exec(code, i, op, wc, &mut sc) {
            return false;
        }
        i = i + wc;
    }
    let mut k: usize = 0;
    while k < sc.vars.len()
        invariant
            k <= sc.vars@.len(),
            sc.inv(),
            spirv_reflectable(code@) == scan_done(sc.state()),
            forall|j: int| 0 <= j < k ==> declared_io_var(sc.ids@, #[trigger] sc.vars@[j]),
        decreases sc.vars@.len() - k,
    {
        if !has_io_var(&sc.ids, sc.vars[k]) {
            proof {
                assert(!declared_io_var(sc.state().ids, sc.state().vars[k as int]));
            }
            return false;
        }
        k = k + 1;
    }
    let mut k: usize = 0;
    while k < sc.need_block.len()
        invariant
            k <= sc.need_block@.len(),
            sc.inv(),
            spirv_reflectable(code@) == scan_done(sc.state()),
            forall|j: int| 0 <= j < sc.vars@.len() ==> declared_io_var(sc.ids@, #[trigger] sc.vars@[j]),
            forall|j: int| 0 <= j < k ==> sc.blocks@.contains(#[trigger] sc.need_block@[j]),
        decreases sc.need_block@.len() - k,
    {
        let want = sc.need_block[k];
        let mut found = false;
        let mut b: usize = 0;
        while b < sc.blocks.len()
            invariant
                b <= sc.blocks@.len(),
                found ==> sc.blocks@.contains(want),
                !found ==> forall|j: int| 0 <= j < b ==> sc.blocks@[j] != want,
            decreases sc.blocks@.len() - b,
        {
            if sc.blocks[b] == want {
                found = true;
            }
            b = b + 1;
        }
        if !found {
            proof {
                assert(!sc.blocks@.contains(sc.state().need_block[k as int]));
            }
            return false;
        }
        k = k + 1;
    }
    let mut k: usize = 0;
    while k < sc.members.len()
        invariant
            k <= sc.members@.len(),
            sc.inv(),
            spirv_reflectable(code@) == scan_done(sc.state()),
            forall|j: int| 0 <= j < sc.vars@.len() ==> declared_io_var(sc.ids@, #[trigger] sc.vars@[j]),
            forall|j: int| 0 <= j < k ==> declared_member(sc.ids@, (#[trigger] sc.members@[j]).0, sc.members@[j].1),
        decreases sc.members@.len() - k,
    {
        let (t, m) = sc.members[k];
        if !has_member(&sc.ids, t, m) {
            proof {
                assert(!declared_member(sc.state().ids, sc.state().members[k as int].0, sc.state().members[k as int].1));
            }
            return false;
        }
        k = k + 1;
    }
    true
}

// ---------------------------------------------------------------------
// The interface of the first entry point
// ---------------------------------------------------------------------

/// The interface ids of the first entry point from word `i` on.
pub open spec fn entry_interface_from(code: Seq<u32>, i: int) -> Seq<u32>
    decreases code.len() - i,
{
    if i < 0 || i >= code.len() || word_count(code[i]) == 0 || i + word_count(code[i]) > code.len() {
        Seq::empty()
    } else if opcode(code[i]) == OP_ENTRY_POINT {
        let end = i + word_count(code[i]);
        let z = first_zero_word(code, i + 3, end);
        if z < end {
            code.subrange(z + 1, end)
        } else {
            Seq::empty()
        }
    } else {
        entry_interface_from(code, i + word_count(code[i]))
    }
}

/// The execution model word of the first entry point from word `i` on;
/// 0 where there is none.
pub open spec fn entry_model_from(code: Seq<u32>, i: int) -> u32
    decreases code.len() - i,
{
    if i < 0 || i >= code.len() || word_count(code[i]) == 0 || i + word_count(code[i]) > code.len() {
        0
    } else if opcode(code[i]) == OP_ENTRY_POINT {
        if word_count(code[i]) >= 2 {
            code[i + 1]
        } else {
            0
        }
    } else {
        entry_model_from(code, i + word_count(code[i]))
    }
}

/// The storage class of the variable with result id `id`, from word `i`
/// on; `None` where no variable has it.
pub open spec fn variable_class_from(code: Seq<u32>, i: int, id: u32) -> Option<u32>
    decreases code.len() - i,
{
    if i < 0 || i >= code.len() || word_count(code[i]) == 0 || i + word_count(code[i]) > code.len() {
        None
    } else if opcode(code[i]) == OP_VARIABLE && word_count(code[i]) >= 4 && code[i + 2] == id {
        Some(code[i + 3])
    } else {
        variable_class_from(code, i + word_count(code[i]), id)
    }
}

/// The location that the last `Location` decoration of `id` from word
/// `i` on gives, `loc` where there is none.
pub open spec fn location_from(code: Seq<u32>, i: int, id: u32, loc: u32) -> u32
    decreases code.len() - i,
{
    if i < 0 || i >= code.len() || word_count(code[i]) == 0 || i + word_count(code[i]) > code.len() {
        loc
    } else {
        let next = if opcode(code[i]) == OP_DECORATE && word_count(code[i]) >= 4 && code[i + 1]
            == id && code[i + 2] == DECORATION_LOCATION {
            code[i + 3]
        } else {
            loc
        };
        location_from(code, i + word_count(code[i]), id, next)
    }
}

/// The raw locations of those of `ids` that are variables of storage
/// class `class`, in order: each variable's `Location` decoration,
/// `NO_LOCATION` where it has none (built-ins).
pub open spec fn pick_locations(code: Seq<u32>, ids: Seq<u32>, class: u32) -> Seq<u32>
    decreases ids.len(),
{
    if ids.len() == 0 {
        Seq::empty()
    } else {
        let prev = pick_locations(code, ids.drop_last(), class);
        if variable_class_from(code, 5, ids.last()) == Some(class) {
            prev.push(location_from(code, 5, ids.last(), NO_LOCATION))
        } else {
            prev
        }
    }
}

/// The raw locations of the variables of storage class `class` that the
/// first entry point lists, in its order.
pub open spec fn interface_locations_spec(code: Seq<u32>, class: u32) -> Seq<u32> {
    pick_locations(code, entry_interface_from(code, 5), class)
}

fn entry_interface(code: &[u32]) -> (r: Vec<u32>)
    ensures
        r@ == entry_interface_from(code@, 5),
{
    let n = code.len();
    let mut i: usize = 5;
    while i < n
        invariant
            n == code@.len(),
            5 <= i,
            entry_interface_from(code@, 5) == entry_interface_from(code@, i as int),
        decreases n - i,
    {
        let w = code[i];
        let wc = (w / 0x1_0000) as usize;
        if wc == 0 || wc > n - i {
            return Vec::new();
        }
        if w % 0x1_0000 == OP_ENTRY_POINT {
            let end = i + wc;
            if wc < 3 {
                return Vec::new();
            }
            let z = first_zero(code, i + 3, end);
            let mut r: Vec<u32> = Vec::new();
            if z < end {
                let mut k = z + 1;
                while k < end
                    invariant
                        z + 1 <= k <= end,
                        end <= code@.len(),
                        r@ == code@.subrange(z + 1, k as int),
                    decreases end - k,
                {
                    r.push(code[k]);
                    k = k + 1;
                    proof {
                        assert(r@ =~= code@.subrange(z + 1, k as int));
                    }
                }
            }
            return r;
        }
        i = i + wc;
    }
    Vec::new()
}

fn variable_class(code: &[u32], id: u32) -> (r: Option<u32>)
    ensures
        r == variable_class_from(code@, 5, id),
{
    let n = code.len();
    let mut i: usize = 5;
    while i < n
        invariant
            n == code@.len(),
            5 <= i,
            variable_class_from(code@, 5, id) == variable_class_from(code@, i as int, id),
        decreases n - i,
    {
        let w = code[i];
        let wc = (w / 0x1_0000) as usize;
        if wc == 0 || wc > n - i {
            return None;
        }
        if w % 0x1_0000 == OP_VARIABLE && wc >= 4 && code[i + 2] == id {
            return Some(code[i + 3]);
        }
        i = i + wc;
    }
    None
}

fn location_of(code: &[u32], id: u32) -> (r: u32)
    ensures
        r == location_from(code@, 5, id, NO_LOCATION),
{
    let n = code.len();
    let mut loc = NO_LOCATION;
    let mut i: usize = 5;
    while i < n
        invariant
            n == code@.len(),
            5 <= i,
            location_from(code@, 5, id, NO_LOCATION) == location_from(code@, i as int, id, loc),
        decreases n - i,
    {
        let w = code[i];
        let wc = (w / 0x1_0000) as usize;
        if wc == 0 || wc > n - i {
            return loc;
        }
        if w % 0x1_0000 == OP_DECORATE && wc >= 4 && code[i + 1] == id && code[i + 2] == DECORATION_LOCATION {
            loc = code[i + 3];
        }
        i = i + wc;
    }
    loc
}

/// The raw locations of the variables of storage class `class` that the
/// first entry point of `code` lists, in its order: each variable's
/// `Location` decoration, `NO_LOCATION` where it has none.
pub fn interface_locations_of(code: &[u32], class: u32) -> (r: Vec<u32>)
    ensures
        r@ == interface_locations_spec(code@, class),
{
    let ids = entry_interface(code);
    let mut r: Vec<u32> = Vec::new();
    let mut k: usize = 0;
    while k < ids.len()
        invariant
            k <= ids@.len(),
            r@ == pick_locations(code@, ids@.subrange(0, k as int), class),
        decreases ids@.len() - k,
    {
        let id = ids[k];
        proof {
            assert(ids@.subrange(0, k + 1).drop_last() =~= ids@.subrange(0, k as int));
            assert(ids@.subrange(0, k + 1).last() == id);
        }
        if variable_class(code, id) == Some(class) {
            r.push(location_of(code, id));
        }
        k = k + 1;
    }
    proof {
        assert(ids@.subrange(0, ids@.len() as int) =~= ids@);
    }
    r
}

} // verus!
