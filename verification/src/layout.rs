//! Layout of the player record: the network variables sorted by offset,
//! each given a type by its name, with padding between them so that each
//! field lands on its variable's offset.
use vstd::prelude::*;
use crate::names;
use crate::player::PlayerLayout;

verus! {

/// A named offset: a network variable (an offset inside the player
/// object) or a signature (an offset inside a module or the client state).
pub struct OffsetEntry {
    pub name: Vec<char>,
    pub offset: u32,
}

/// The type a field of the player record gets.
#[derive(Clone, Copy, PartialEq, Eq, Structural, Debug)]
pub enum FieldKind {
    /// `u8`
    Byte,
    /// `i32`
    Int,
    /// three `f32`
    Vector,
    /// `f32`
    Float,
    /// `u32`
    Dword,
}

pub open spec fn kind_size(k: FieldKind) -> nat {
    match k {
        FieldKind::Byte => 1,
        FieldKind::Int => 4,
        FieldKind::Vector => 12,
        FieldKind::Float => 4,
        FieldKind::Dword => 4,
    }
}

/// Whether `n` occurs in `h` as a contiguous run.
pub open spec fn has(h: Seq<char>, n: Seq<char>) -> bool {
    names::occurs_in(names::code_points(h), names::code_points(n))
}

/// The type of a variable, decided from the first of these markers its
/// name contains.
pub open spec fn spec_field_kind(name: Seq<char>) -> FieldKind {
    if has(name, "m_iItem"@) {
        FieldKind::Byte
    } else if has(name, "m_i"@) {
        FieldKind::Int
    } else if has(name, "m_vec"@) {
        FieldKind::Vector
    } else if has(name, "m_fl"@) {
        FieldKind::Float
    } else if has(name, "m_b"@) {
        FieldKind::Byte
    } else if has(name, "m_dw"@) {
        FieldKind::Dword
    } else if has(name, "m_MoveType"@) {
        FieldKind::Byte
    } else if has(name, "m_h"@) {
        FieldKind::Int
    } else if has(name, "m_lifeState"@) {
        FieldKind::Byte
    } else if has(name, "m_aimPunchAngleVel"@) {
        FieldKind::Int
    } else if has(name, "m_aimPunchAngle"@) {
        FieldKind::Vector
    } else if has(name, "m_fFlags"@) {
        FieldKind::Int
    } else {
        FieldKind::Dword
    }
}

/// Whether `n` occurs in `h` as a contiguous run.
pub fn contains_chars(h: &[char], n: &[char]) -> (found: bool)
    ensures
        found == has(h@, n@),
{
    names::occurs(&names::code_points_of_chars(h), &names::code_points_of_chars(n))
}

fn name_has(name: &Vec<char>, marker: &str) -> (found: bool)
    ensures
        found == has(name@, marker@),
{
    let m = names::chars_of(marker);
    contains_chars(name.as_slice(), m.as_slice())
}

/// The type a variable named `name` gets in the player record.
pub fn field_kind(name: &Vec<char>) -> (k: FieldKind)
    ensures
        k == spec_field_kind(name@),
{
    if name_has(name, "m_iItem") {
        FieldKind::Byte
    } else if name_has(name, "m_i") {
        FieldKind::Int
    } else if name_has(name, "m_vec") {
        FieldKind::Vector
    } else if name_has(name, "m_fl") {
        FieldKind::Float
    } else if name_has(name, "m_b") {
        FieldKind::Byte
    } else if name_has(name, "m_dw") {
        FieldKind::Dword
    } else if name_has(name, "m_MoveType") {
        FieldKind::Byte
    } else if name_has(name, "m_h") {
        FieldKind::Int
    } else if name_has(name, "m_lifeState") {
        FieldKind::Byte
    } else if name_has(name, "m_aimPunchAngleVel") {
        FieldKind::Int
    } else if name_has(name, "m_aimPunchAngle") {
        FieldKind::Vector
    } else if name_has(name, "m_fFlags") {
        FieldKind::Int
    } else {
        FieldKind::Dword
    }
}

impl FieldKind {
    /// The size in bytes of a field of this type.
    pub fn size(&self) -> (s: u32)
        ensures
            s == kind_size(*self),
    {
        match self {
            FieldKind::Byte => 1,
            FieldKind::Int => 4,
            FieldKind::Vector => 12,
            FieldKind::Float => 4,
            FieldKind::Dword => 4,
        }
    }

    /// The Rust type written for a field of this type.
    pub fn rust_type(&self) -> (t: &'static str)
        ensures
            t@ == spec_rust_type(*self),
    {
        match self {
            FieldKind::Byte => "u8",
            FieldKind::Int => "i32",
            FieldKind::Vector => "D3DVECTOR",
            FieldKind::Float => "f32",
            FieldKind::Dword => "u32",
        }
    }

    /// The initial value written for a field of this type.
    pub fn default_value(&self) -> (t: &'static str)
        ensures
            t@ == spec_default_value(*self),
    {
        match self {
            FieldKind::Vector => "D3DVECTOR {x: 0.0, y: 0.0, z: 0.0}",
            FieldKind::Float => "0.0",
            _ => "0",
        }
    }
}

pub open spec fn spec_rust_type(k: FieldKind) -> Seq<char> {
    match k {
        FieldKind::Byte => "u8"@,
        FieldKind::Int => "i32"@,
        FieldKind::Vector => "D3DVECTOR"@,
        FieldKind::Float => "f32"@,
        FieldKind::Dword => "u32"@,
    }
}

/// The size in bytes of the Rust types a record declaration may name.
pub open spec fn rust_type_size(t: Seq<char>) -> Option<nat> {
    if t == "u8"@ || t == "i8"@ || t == "bool"@ {
        Some(1)
    } else if t == "u16"@ || t == "i16"@ {
        Some(2)
    } else if t == "u32"@ || t == "i32"@ || t == "f32"@ {
        Some(4)
    } else if t == "u64"@ || t == "i64"@ || t == "f64"@ {
        Some(8)
    } else if t == "D3DVECTOR"@ {
        Some(12)
    } else {
        None
    }
}

/// Whether the Rust type `t` holds floating-point numbers (one, or three
/// for a vector).
pub open spec fn is_float_type(t: Seq<char>) -> bool {
    t == "f32"@ || t == "f64"@ || t == "D3DVECTOR"@
}

/// Whether the Rust type `t` is a signed integer.
pub open spec fn is_signed_type(t: Seq<char>) -> bool {
    t == "i8"@ || t == "i16"@ || t == "i32"@ || t == "i64"@
}

/// The Rust type declared for a field has the size the layout reserves for
/// its kind, holds floating point exactly for the float and vector kinds,
/// and is signed exactly for the int kind: `f32` for a float, `u8` for a
/// byte, `i32` for an int, `u32` for a dword, `D3DVECTOR` for a vector.
pub proof fn law_declared_type_fits_kind(k: FieldKind)
    ensures
        rust_type_size(spec_rust_type(k)) == Some(kind_size(k)),
        is_float_type(spec_rust_type(k)) == (k == FieldKind::Float || k == FieldKind::Vector),
        is_signed_type(spec_rust_type(k)) == (k == FieldKind::Int),
{
    reveal_strlit("u8");
    reveal_strlit("i8");
    reveal_strlit("bool");
    reveal_strlit("u16");
    reveal_strlit("i16");
    reveal_strlit("u32");
    reveal_strlit("i32");
    reveal_strlit("f32");
    reveal_strlit("u64");
    reveal_strlit("i64");
    reveal_strlit("f64");
    reveal_strlit("D3DVECTOR");
    assert("u8"@.len() == 2 && "u8"@[0] == 'u');
    assert("i8"@.len() == 2 && "i8"@[0] == 'i');
    assert("bool"@.len() == 4);
    assert("u16"@.len() == 3 && "u16"@[0] == 'u' && "u16"@[1] == '1');
    assert("i16"@.len() == 3 && "i16"@[0] == 'i' && "i16"@[1] == '1');
    assert("u32"@.len() == 3 && "u32"@[0] == 'u' && "u32"@[1] == '3');
    assert("i32"@.len() == 3 && "i32"@[0] == 'i' && "i32"@[1] == '3');
    assert("f32"@.len() == 3 && "f32"@[0] == 'f' && "f32"@[1] == '3');
    assert("u64"@.len() == 3 && "u64"@[0] == 'u' && "u64"@[1] == '6');
    assert("i64"@.len() == 3 && "i64"@[0] == 'i' && "i64"@[1] == '6');
    assert("f64"@.len() == 3 && "f64"@[0] == 'f' && "f64"@[1] == '6');
    assert("D3DVECTOR"@.len() == 9);
}

/// Whether `d` is the zero value of the Rust type `t` as a Rust literal:
/// a zeroed vector, `0.0` for a floating-point number, `0` for an integer.
pub open spec fn zero_literal_of(t: Seq<char>, d: Seq<char>) -> bool {
    if t == "D3DVECTOR"@ {
        d == "D3DVECTOR {x: 0.0, y: 0.0, z: 0.0}"@
    } else if is_float_type(t) {
        d == "0.0"@
    } else {
        d == "0"@
    }
}

/// The initial value written for a field is the zero literal of the type
/// declared for it.
pub proof fn law_default_is_zero_of_declared_type(k: FieldKind)
    ensures
        zero_literal_of(spec_rust_type(k), spec_default_value(k)),
{
    reveal_strlit("f32");
    reveal_strlit("f64");
    reveal_strlit("u8");
    reveal_strlit("i32");
    reveal_strlit("u32");
    reveal_strlit("D3DVECTOR");
    assert("u8"@.len() == 2);
    assert("i32"@.len() == 3 && "i32"@[0] == 'i');
    assert("u32"@.len() == 3 && "u32"@[0] == 'u');
    assert("f32"@.len() == 3 && "f32"@[0] == 'f');
    assert("f64"@.len() == 3 && "f64"@[0] == 'f' && "f64"@[1] == '6');
    assert("D3DVECTOR"@.len() == 9);
}

pub open spec fn spec_default_value(k: FieldKind) -> Seq<char> {
    match k {
        FieldKind::Vector => "D3DVECTOR {x: 0.0, y: 0.0, z: 0.0}"@,
        FieldKind::Float => "0.0"@,
        _ => "0"@,
    }
}

// ---------------------------------------------------------------------------
// Sorting by offset

pub open spec fn offsets_of(es: Seq<OffsetEntry>) -> Seq<u32> {
    Seq::new(es.len(), |i: int| es[i].offset)
}

/// Variable `a` comes before variable `b`: a smaller offset, or the same
/// offset and an earlier place in the input (the order is stable).
pub open spec fn before(offs: Seq<u32>, a: usize, b: usize) -> bool {
    offs[a as int] < offs[b as int] || (offs[a as int] == offs[b as int] && a < b)
}

/// `order` lists every variable index once, sorted by offset, equal
/// offsets in input order.
pub open spec fn is_sorted_order(offs: Seq<u32>, order: Seq<usize>) -> bool {
    &&& order.len() == offs.len()
    &&& forall|x: usize| #[trigger] order.contains(x) <==> x < offs.len()
    &&& forall|k: int, l: int|
        0 <= k < l < order.len() ==> before(offs, #[trigger] order[k], #[trigger] order[l])
}

/// The sorted order of the variables (there is exactly one, see
/// `lemma_sorted_order_unique`).
pub open spec fn sorted_order(es: Seq<OffsetEntry>) -> Seq<usize> {
    choose|o: Seq<usize>| is_sorted_order(offsets_of(es), o)
}

proof fn lemma_same_members_unique(
    offs: Seq<u32>,
    a: Seq<usize>,
    b: Seq<usize>,
    members: spec_fn(usize) -> bool,
)
    requires
        a.len() == b.len(),
        forall|x: usize| #[trigger] a.contains(x) <==> members(x),
        forall|x: usize| #[trigger] b.contains(x) <==> members(x),
        forall|k: int, l: int| 0 <= k < l < a.len() ==> before(offs, #[trigger] a[k], #[trigger] a[l]),
        forall|k: int, l: int| 0 <= k < l < b.len() ==> before(offs, #[trigger] b[k], #[trigger] b[l]),
    ensures
        a == b,
    decreases a.len(),
{
    if a.len() == 0 {
        assert(a =~= b);
    } else {
        let n = a.len() - 1;
        let ma = a[n];
        let mb = b[n];
        assert(a.contains(ma));
        assert(b.contains(mb));
        assert(a.contains(mb));
        assert(b.contains(ma));
        let ja = choose|j: int| 0 <= j < a.len() && a[j] == mb;
        let jb = choose|j: int| 0 <= j < b.len() && b[j] == ma;
        if ma != mb {
            assert(ja < n);
            assert(before(offs, a[ja], a[n]));
            assert(jb < n);
            assert(before(offs, b[jb], b[n]));
            assert(false);
        }
        let members2 = |x: usize| members(x) && x != ma;
        let a2 = a.drop_last();
        let b2 = b.drop_last();
        assert forall|x: usize| #[trigger] a2.contains(x) <==> members2(x) by {
            if a2.contains(x) {
                let j = choose|j: int| 0 <= j < a2.len() && a2[j] == x;
                assert(a[j] == x);
                assert(a.contains(x));
                assert(before(offs, a[j], a[n]));
            }
            if members2(x) {
                assert(a.contains(x));
                let j = choose|j: int| 0 <= j < a.len() && a[j] == x;
                assert(j != n);
                assert(a2[j] == x);
            }
        }
        assert forall|x: usize| #[trigger] b2.contains(x) <==> members2(x) by {
            if b2.contains(x) {
                let j = choose|j: int| 0 <= j < b2.len() && b2[j] == x;
                assert(b[j] == x);
                assert(b.contains(x));
                assert(before(offs, b[j], b[n]));
            }
            if members2(x) {
                assert(b.contains(x));
                let j = choose|j: int| 0 <= j < b.len() && b[j] == x;
                assert(j != n);
                assert(b2[j] == x);
            }
        }
        lemma_same_members_unique(offs, a2, b2, members2);
        assert(a =~= a2.push(ma));
        assert(b =~= b2.push(mb));
    }
}

/// There is only one sorted order of a list of variables.
pub proof fn lemma_sorted_order_unique(offs: Seq<u32>, a: Seq<usize>, b: Seq<usize>)
    requires
        is_sorted_order(offs, a),
        is_sorted_order(offs, b),
    ensures
        a == b,
{
    let n = offs.len();
    lemma_same_members_unique(offs, a, b, |x: usize| x < n);
}

/// The indices of the variables in sorted order.
pub fn sort_order(es: &Vec<OffsetEntry>) -> (order: Vec<usize>)
    ensures
        is_sorted_order(offsets_of(es@), order@),
        order@ == sorted_order(es@),
{
    let ghost offs = offsets_of(es@);
    let n = es.len();
    let mut out: Vec<usize> = Vec::new();
    let mut i: usize = 0;
    while i < n
        invariant
            n == es@.len(),
            offs == offsets_of(es@),
            i <= n,
            out@.len() == i,
            forall|x: usize| #[trigger] out@.contains(x) <==> x < i,
            forall|k: int, l: int|
                0 <= k < l < out@.len() ==> before(offs, #[trigger] out@[k], #[trigger] out@[l]),
        decreases n - i,
    {
        let mut p: usize = 0;
        assert forall|k: int| 0 <= k < out@.len() implies #[trigger] out@[k] < i by {
            assert(out@.contains(out@[k]));
        }
        while p < out.len() && es[out[p]].offset <= es[i].offset
            invariant
                n == es@.len(),
                offs == offsets_of(es@),
                i < n,
                out@.len() == i,
                p <= out@.len(),
                forall|x: usize| #[trigger] out@.contains(x) <==> x < i,
                forall|k: int| 0 <= k < out@.len() ==> #[trigger] out@[k] < i,
                forall|k: int| 0 <= k < p ==> offs[#[trigger] out@[k] as int] <= offs[i as int],
            decreases out@.len() - p,
        {
            assert(out@.contains(out@[p as int]));
            p = p + 1;
        }
        proof {
            assert forall|k: int| p <= k < out@.len() implies offs[i as int] < offs[
                #[trigger] out@[k] as int] by {
                assert(out@.contains(out@[p as int]));
                if k > p {
                    assert(before(offs, out@[p as int], out@[k]));
                }
            }
        }
        let ghost old_out = out@;
        out.insert(p, i);
        proof {
            assert forall|x: usize| #[trigger] out@.contains(x) <==> x < i + 1 by {
                if out@.contains(x) {
                    let j = choose|j: int| 0 <= j < out@.len() && out@[j] == x;
                    if j < p {
                        assert(old_out.contains(old_out[j]));
                    } else if j > p {
                        assert(old_out.contains(old_out[j - 1]));
                    }
                }
                if x < i {
                    assert(old_out.contains(x));
                    let j = choose|j: int| 0 <= j < old_out.len() && old_out[j] == x;
                    if j < p {
                        assert(out@[j] == x);
                    } else {
                        assert(out@[j + 1] == x);
                    }
                }
                if x == i {
                    assert(out@[p as int] == x);
                }
            }
            assert forall|k: int, l: int| 0 <= k < l < out@.len() implies before(
                offs,
                #[trigger] out@[k],
                #[trigger] out@[l],
            ) by {
                if k < p && l < p {
                    assert(before(offs, old_out[k], old_out[l]));
                } else if k < p && l == p {
                    assert(old_out.contains(old_out[k]));
                } else if k < p && l > p {
                    assert(before(offs, old_out[k], old_out[l - 1]));
                } else if k == p {
                    assert(old_out.contains(old_out[l - 1]));
                } else {
                    assert(before(offs, old_out[k - 1], old_out[l - 1]));
                }
            }
        }
        i = i + 1;
    }
    proof {
        lemma_sorted_order_unique(offs, out@, sorted_order(es@));
    }
    out
}

// ---------------------------------------------------------------------------
// The record layout

/// One entry of the player record: a field for a variable, or padding.
#[derive(Clone, Copy, PartialEq, Eq, Structural, Debug)]
pub enum LayoutItem {
    /// The field of variable `var` (an index into the variables).
    Field { var: usize, kind: FieldKind },
    /// `len` bytes of padding after the field at place `after` of the
    /// sorted order.
    Padding { after: usize, len: u32 },
}

/// The planned player record.
pub struct Plan {
    /// The variables' indices in sorted order.
    pub order: Vec<usize>,
    /// The record's entries, in order.
    pub items: Vec<LayoutItem>,
    /// The record's size in bytes.
    pub size: u32,
}

/// The type of the `k`-th variable in sorted order.
pub open spec fn sorted_kind(es: Seq<OffsetEntry>, order: Seq<usize>, k: int) -> FieldKind {
    spec_field_kind(es[order[k] as int].name@)
}

/// The offset of the `k`-th variable in sorted order.
pub open spec fn sorted_offset(es: Seq<OffsetEntry>, order: Seq<usize>, k: int) -> int {
    es[order[k] as int].offset as int
}

/// Where the field of the `k`-th variable starts: the first at the start
/// of the record, each other one at its variable's offset.
pub open spec fn field_start(es: Seq<OffsetEntry>, order: Seq<usize>, k: int) -> int {
    if k == 0 {
        0
    } else {
        sorted_offset(es, order, k)
    }
}

/// Where the field of the `k`-th variable ends.
pub open spec fn field_end(es: Seq<OffsetEntry>, order: Seq<usize>, k: int) -> int {
    field_start(es, order, k) + kind_size(sorted_kind(es, order, k))
}

/// No field overlaps the next variable's offset, and every field ends
/// inside the 32-bit range.
pub open spec fn fits_in_order(es: Seq<OffsetEntry>, order: Seq<usize>) -> bool {
    forall|k: int|
        0 <= k < es.len() ==> #[trigger] field_end(es, order, k) <= u32::MAX && (k + 1 < es.len()
            ==> field_end(es, order, k) <= sorted_offset(es, order, k + 1))
}

/// Whether the variables can be laid out.
pub open spec fn layout_fits(es: Seq<OffsetEntry>) -> bool {
    fits_in_order(es, sorted_order(es))
}

/// The entries of the record for the first `k` variables in sorted order:
/// each field, then padding up to the next variable's offset if needed.
pub open spec fn items_upto(es: Seq<OffsetEntry>, order: Seq<usize>, k: nat) -> Seq<LayoutItem>
    decreases k,
{
    if k == 0 {
        Seq::empty()
    } else {
        let j = k - 1;
        let field = LayoutItem::Field { var: order[j], kind: sorted_kind(es, order, j) };
        let gap = if j + 1 < es.len() {
            sorted_offset(es, order, j + 1) - field_end(es, order, j)
        } else {
            0
        };
        let pad = if gap != 0 {
            seq![LayoutItem::Padding { after: j as usize, len: gap as u32 }]
        } else {
            Seq::empty()
        };
        items_upto(es, order, (k - 1) as nat) + seq![field] + pad
    }
}

/// The size of the record.
pub open spec fn record_size(es: Seq<OffsetEntry>, order: Seq<usize>) -> int {
    if es.len() == 0 {
        0
    } else {
        field_end(es, order, es.len() - 1)
    }
}

/// The planned record of the variables.
pub open spec fn spec_plan_items(es: Seq<OffsetEntry>) -> Seq<LayoutItem> {
    items_upto(es, sorted_order(es), es.len())
}

/// The size in bytes of a run of record entries.
pub open spec fn items_size(s: Seq<LayoutItem>) -> int
    decreases s.len(),
{
    if s.len() == 0 {
        0
    } else {
        items_size(s.drop_last()) + match s.last() {
            LayoutItem::Field { kind, .. } => kind_size(kind) as int,
            LayoutItem::Padding { len, .. } => len as int,
        }
    }
}

proof fn lemma_items_size_append(a: Seq<LayoutItem>, b: Seq<LayoutItem>)
    ensures
        items_size(a + b) == items_size(a) + items_size(b),
    decreases b.len(),
{
    if b.len() == 0 {
        assert(a + b =~= a);
    } else {
        lemma_items_size_append(a, b.drop_last());
        assert((a + b).drop_last() =~= a + b.drop_last());
    }
}

/// In a planned record, the entries before the field of the `k`-th
/// variable in sorted order take exactly `field_start(k)` bytes: the first
/// field is at the start, and every other field at its variable's offset.
pub proof fn law_fields_land_on_offsets(es: Seq<OffsetEntry>, order: Seq<usize>, k: nat)
    requires
        is_sorted_order(offsets_of(es), order),
        fits_in_order(es, order),
        k < es.len(),
    ensures
        items_size(items_upto(es, order, k)) == field_start(es, order, k as int),
        items_size(items_upto(es, order, k + 1)) == (if k + 1 < es.len() {
            field_start(es, order, k + 1 as int)
        } else {
            field_end(es, order, k as int)
        }),
    decreases k,
{
    let j = k as int;
    if k > 0 {
        law_fields_land_on_offsets(es, order, (k - 1) as nat);
    }
    let field = LayoutItem::Field { var: order[j], kind: sorted_kind(es, order, j) };
    let gap = if j + 1 < es.len() {
        sorted_offset(es, order, j + 1) - field_end(es, order, j)
    } else {
        0
    };
    let pad = if gap != 0 {
        seq![LayoutItem::Padding { after: j as usize, len: gap as u32 }]
    } else {
        Seq::<LayoutItem>::empty()
    };
    assert(field_end(es, order, j) <= u32::MAX);
    if j + 1 < es.len() {
        assert(order.contains(order[j + 1]));
        assert(offsets_of(es)[order[j + 1] as int] == sorted_offset(es, order, j + 1));
    }
    lemma_items_size_append(items_upto(es, order, k) + seq![field], pad);
    lemma_items_size_append(items_upto(es, order, k), seq![field]);
    assert(items_size(seq![field]) == kind_size(sorted_kind(es, order, j))) by {
        reveal_with_fuel(items_size, 2);
        assert(seq![field].drop_last() =~= Seq::<LayoutItem>::empty());
    }
    if gap != 0 {
        assert(items_size(pad) == gap) by {
            reveal_with_fuel(items_size, 2);
            assert(pad.drop_last() =~= Seq::<LayoutItem>::empty());
        }
    } else {
        assert(items_size(pad) == 0);
    }
}

/// Whether the variables can be laid out without a field overlapping the
/// next variable, or running past the 32-bit range.
pub fn fits(es: &Vec<OffsetEntry>) -> (ok: bool)
    ensures
        ok == layout_fits(es@),
{
    let order = sort_order(es);
    let n = es.len();
    let mut k: usize = 0;
    while k < n
        invariant
            n == es@.len(),
            order@ == sorted_order(es@),
            is_sorted_order(offsets_of(es@), order@),
            k <= n,
            forall|j: int|
                0 <= j < k ==> #[trigger] field_end(es@, order@, j) <= u32::MAX && (j + 1
                    < es@.len() ==> field_end(es@, order@, j) <= sorted_offset(es@, order@, j + 1)),
        decreases n - k,
    {
        assert(order@.contains(order@[k as int]));
        let v = order[k];
        let start: u64 = if k == 0 {
            0
        } else {
            es[v].offset as u64
        };
        let size = field_kind(&es[v].name).size();
        let end = start + size as u64;
        if end > u32::MAX as u64 {
            assert(field_end(es@, order@, k as int) == end);
            return false;
        }
        if k + 1 < n {
            assert(order@.contains(order@[k + 1]));
            if end > es[order[k + 1]].offset as u64 {
                assert(field_end(es@, order@, k as int) == end);
                return false;
            }
        }
        assert(field_end(es@, order@, k as int) == end);
        k = k + 1;
    }
    true
}

/// Plans the player record for the variables: fields in sorted order,
/// padding between them, and the record's size.
pub fn plan_layout(es: &Vec<OffsetEntry>) -> (plan: Plan)
    requires
        layout_fits(es@),
    ensures
        plan.order@ == sorted_order(es@),
        plan.items@ == spec_plan_items(es@),
        plan.size == record_size(es@, sorted_order(es@)),
{
    let order = sort_order(es);
    let n = es.len();
    let mut items: Vec<LayoutItem> = Vec::new();
    let mut size: u32 = 0;
    let mut k: usize = 0;
    while k < n
        invariant
            n == es@.len(),
            order@ == sorted_order(es@),
            is_sorted_order(offsets_of(es@), order@),
            fits_in_order(es@, order@),
            k <= n,
            items@ == items_upto(es@, order@, k as nat),
            size == (if k == 0 {
                0
            } else if k < n {
                field_start(es@, order@, k as int)
            } else {
                field_end(es@, order@, k - 1)
            }),
        decreases n - k,
    {
        assert(order@.contains(order@[k as int]));
        let v = order[k];
        let kind = field_kind(&es[v].name);
        assert(field_end(es@, order@, k as int) <= u32::MAX);
        size = size + kind.size();
        items.push(LayoutItem::Field { var: v, kind });
        if k + 1 < n {
            assert(order@.contains(order@[k + 1]));
            let next = es[order[k + 1]].offset;
            if size != next {
                items.push(LayoutItem::Padding { after: k, len: next - size });
                size = next;
            }
        }
        proof {
            let j = k as int;
            let field = LayoutItem::Field { var: order@[j], kind: sorted_kind(es@, order@, j) };
            assert(items_upto(es@, order@, (k + 1) as nat) =~= items_upto(es@, order@, k as nat)
                + seq![field] + (if j + 1 < es@.len() && sorted_offset(es@, order@, j + 1)
                - field_end(es@, order@, j) != 0 {
                seq![
                    LayoutItem::Padding {
                        after: k,
                        len: (sorted_offset(es@, order@, j + 1) - field_end(es@, order@, j)) as u32,
                    },
                ]
            } else {
                Seq::empty()
            }));
        }
        k = k + 1;
    }
    Plan { order, items, size }
}

// ---------------------------------------------------------------------------
// The fields the tool reads

/// The place in sorted order, from `k` on, of the first variable named
/// `name`.
pub open spec fn find_sorted(es: Seq<OffsetEntry>, order: Seq<usize>, name: Seq<char>, k: nat) -> Option<
    int,
>
    decreases es.len() - k,
{
    if k >= es.len() {
        None
    } else if es[order[k as int] as int].name@ == name {
        Some(k as int)
    } else {
        find_sorted(es, order, name, k + 1)
    }
}

/// Where the record holds the field of the variable `name`, provided that
/// the variable exists and its field has type `kind`.
pub open spec fn var_field(es: Seq<OffsetEntry>, order: Seq<usize>, name: Seq<char>, kind: FieldKind) -> Option<
    u32,
> {
    match find_sorted(es, order, name, 0) {
        Some(k) => if sorted_kind(es, order, k) == kind {
            Some(field_start(es, order, k) as u32)
        } else {
            None
        },
        None => None,
    }
}

/// The layout of the fields the tool reads, in the record planned for the
/// variables; `None` when one of them is missing or has another type.
pub open spec fn spec_player_layout(es: Seq<OffsetEntry>) -> Option<PlayerLayout> {
    let o = sorted_order(es);
    let health = var_field(es, o, "m_iHealth"@, FieldKind::Int);
    let team_num = var_field(es, o, "m_iTeamNum"@, FieldKind::Int);
    let glow_index = var_field(es, o, "m_iGlowIndex"@, FieldKind::Int);
    let immunity = var_field(es, o, "m_bGunGameImmunity"@, FieldKind::Byte);
    let spotted = var_field(es, o, "m_bSpotted"@, FieldKind::Byte);
    let flags = var_field(es, o, "m_fFlags"@, FieldKind::Int);
    let bone_matrix = var_field(es, o, "m_dwBoneMatrix"@, FieldKind::Dword);
    let origin = var_field(es, o, "m_vecOrigin"@, FieldKind::Vector);
    let view_offset = var_field(es, o, "m_vecViewOffset"@, FieldKind::Vector);
    let punch = var_field(es, o, "m_aimPunchAngle"@, FieldKind::Vector);
    if health is Some && team_num is Some && glow_index is Some && immunity is Some
        && spotted is Some && flags is Some && bone_matrix is Some && origin is Some
        && view_offset is Some && punch is Some {
        Some(
            PlayerLayout {
                size: record_size(es, o) as u32,
                health: health->0,
                team_num: team_num->0,
                glow_index: glow_index->0,
                gun_game_immunity: immunity->0,
                spotted: spotted->0,
                flags: flags->0,
                bone_matrix: bone_matrix->0,
                origin: origin->0,
                view_offset: view_offset->0,
                aim_punch_angle: punch->0,
            },
        )
    } else {
        None
    }
}

proof fn lemma_field_inside_record(es: Seq<OffsetEntry>, order: Seq<usize>, k: int)
    requires
        is_sorted_order(offsets_of(es), order),
        fits_in_order(es, order),
        0 <= k < es.len(),
    ensures
        field_end(es, order, k) <= record_size(es, order),
        record_size(es, order) <= u32::MAX,
    decreases es.len() - k,
{
    assert(field_end(es, order, es.len() - 1) <= u32::MAX);
    if k + 1 < es.len() {
        assert(field_end(es, order, k) <= sorted_offset(es, order, k + 1));
        lemma_field_inside_record(es, order, k + 1);
    }
}

proof fn lemma_var_field_inside(
    es: Seq<OffsetEntry>,
    order: Seq<usize>,
    name: Seq<char>,
    kind: FieldKind,
    k: nat,
)
    requires
        is_sorted_order(offsets_of(es), order),
        fits_in_order(es, order),
        find_sorted(es, order, name, k) is Some,
    ensures
        0 <= find_sorted(es, order, name, k)->0 < es.len(),
        sorted_kind(es, order, find_sorted(es, order, name, k)->0) == kind ==> field_start(
            es,
            order,
            find_sorted(es, order, name, k)->0,
        ) + kind_size(kind) <= record_size(es, order),
    decreases es.len() - k,
{
    if es[order[k as int] as int].name@ != name {
        lemma_var_field_inside(es, order, name, kind, k + 1);
    } else {
        lemma_field_inside_record(es, order, k as int);
    }
}

pub fn same_chars(a: &[char], b: &[char]) -> (eq: bool)
    ensures
        eq == (a@ == b@),
{
    if a.len() != b.len() {
        return false;
    }
    let n = a.len();
    let mut i: usize = 0;
    while i < n
        invariant
            n == a@.len(),
            n == b@.len(),
            i <= n,
            forall|k: int| 0 <= k < i ==> a@[k] == b@[k],
        decreases n - i,
    {
        if a[i] != b[i] {
            return false;
        }
        i = i + 1;
    }
    assert(a@ =~= b@);
    true
}

fn find_field(es: &Vec<OffsetEntry>, order: &Vec<usize>, name: &str, kind: FieldKind) -> (pos: Option<u32>)
    requires
        is_sorted_order(offsets_of(es@), order@),
        fits_in_order(es@, order@),
    ensures
        pos == var_field(es@, order@, name@, kind),
{
    let wanted = names::chars_of(name);
    let n = es.len();
    let mut k: usize = 0;
    while k < n
        invariant
            n == es@.len(),
            is_sorted_order(offsets_of(es@), order@),
            fits_in_order(es@, order@),
            wanted@ == name@,
            k <= n,
            find_sorted(es@, order@, name@, 0) == find_sorted(es@, order@, name@, k as nat),
        decreases n - k,
    {
        assert(order@.contains(order@[k as int]));
        let v = order[k];
        if same_chars(es[v].name.as_slice(), wanted.as_slice()) {
            if field_kind(&es[v].name) == kind {
                assert(field_end(es@, order@, k as int) <= u32::MAX);
                return Some(
                    if k == 0 {
                        0
                    } else {
                        es[v].offset
                    },
                );
            } else {
                return None;
            }
        }
        k = k + 1;
    }
    None
}

/// Finds, in the record planned for the variables, the fields the tool
/// reads; `None` when one of them is missing or has another type.
pub fn player_layout(es: &Vec<OffsetEntry>) -> (l: Option<PlayerLayout>)
    requires
        layout_fits(es@),
    ensures
        l == spec_player_layout(es@),
        l matches Some(p) ==> p.wf(),
{
    let order = sort_order(es);
    let plan = plan_layout(es);
    let health = find_field(es, &order, "m_iHealth", FieldKind::Int);
    let team_num = find_field(es, &order, "m_iTeamNum", FieldKind::Int);
    let glow_index = find_field(es, &order, "m_iGlowIndex", FieldKind::Int);
    let immunity = find_field(es, &order, "m_bGunGameImmunity", FieldKind::Byte);
    let spotted = find_field(es, &order, "m_bSpotted", FieldKind::Byte);
    let flags = find_field(es, &order, "m_fFlags", FieldKind::Int);
    let bone_matrix = find_field(es, &order, "m_dwBoneMatrix", FieldKind::Dword);
    let origin = find_field(es, &order, "m_vecOrigin", FieldKind::Vector);
    let view_offset = find_field(es, &order, "m_vecViewOffset", FieldKind::Vector);
    let punch = find_field(es, &order, "m_aimPunchAngle", FieldKind::Vector);
    match (
        health,
        team_num,
        glow_index,
        immunity,
        spotted,
        flags,
        bone_matrix,
        origin,
        view_offset,
        punch,
    ) {
        (
            Some(health),
            Some(team_num),
            Some(glow_index),
            Some(gun_game_immunity),
            Some(spotted),
            Some(flags),
            Some(bone_matrix),
            Some(origin),
            Some(view_offset),
            Some(aim_punch_angle),
        ) => {
            proof {
                let o = order@;
                lemma_var_field_inside(es@, o, "m_iHealth"@, FieldKind::Int, 0);
                lemma_var_field_inside(es@, o, "m_iTeamNum"@, FieldKind::Int, 0);
                lemma_var_field_inside(es@, o, "m_iGlowIndex"@, FieldKind::Int, 0);
                lemma_var_field_inside(es@, o, "m_bGunGameImmunity"@, FieldKind::Byte, 0);
                lemma_var_field_inside(es@, o, "m_bSpotted"@, FieldKind::Byte, 0);
                lemma_var_field_inside(es@, o, "m_fFlags"@, FieldKind::Int, 0);
                lemma_var_field_inside(es@, o, "m_dwBoneMatrix"@, FieldKind::Dword, 0);
                lemma_var_field_inside(es@, o, "m_vecOrigin"@, FieldKind::Vector, 0);
                lemma_var_field_inside(es@, o, "m_vecViewOffset"@, FieldKind::Vector, 0);
                lemma_var_field_inside(es@, o, "m_aimPunchAngle"@, FieldKind::Vector, 0);
                lemma_field_inside_record(es@, o, 0);
            }
            Some(
                PlayerLayout {
                    size: plan.size,
                    health,
                    team_num,
                    glow_index,
                    gun_game_immunity,
                    spotted,
                    flags,
                    bone_matrix,
                    origin,
                    view_offset,
                    aim_punch_angle,
                },
            )
        },
        _ => None,
    }
}

// ---------------------------------------------------------------------------
// The source text of the record

/// The decimal digit `d`.
pub open spec fn digit_char(d: nat) -> char {
    ((48 + d) as u8) as char
}

/// The decimal representation of `n`.
pub open spec fn decimal(n: nat) -> Seq<char>
    decreases n,
{
    if n < 10 {
        seq![digit_char(n)]
    } else {
        decimal(n / 10) + seq![digit_char(n % 10)]
    }
}

/// The name of variable `var`, or nothing when there is no such variable.
pub open spec fn var_name(es: Seq<OffsetEntry>, var: usize) -> Seq<char> {
    if var < es.len() {
        es[var as int].name@
    } else {
        Seq::empty()
    }
}

/// The declaration of a record entry: `    pub NAME: TYPE,` for a field,
/// `    pub _pK: [u8; LEN],` for padding after the `K`-th field.
pub open spec fn field_line(es: Seq<OffsetEntry>, item: LayoutItem) -> Seq<char> {
    match item {
        LayoutItem::Field { var, kind } => "    pub "@ + var_name(es, var) + ": "@ + spec_rust_type(
            kind,
        ) + ","@,
        LayoutItem::Padding { after, len } => "    pub _p"@ + decimal(after as nat) + ": [u8; "@
            + decimal(len as nat) + "],"@,
    }
}

/// The initial value of a record entry: `        NAME: VALUE,` for a
/// field, `        _pK: [0; LEN],` for padding.
pub open spec fn default_line(es: Seq<OffsetEntry>, item: LayoutItem) -> Seq<char> {
    match item {
        LayoutItem::Field { var, kind } => "        "@ + var_name(es, var) + ": "@
            + spec_default_value(kind) + ","@,
        LayoutItem::Padding { after, len } => "        _p"@ + decimal(after as nat) + ": [0; "@
            + decimal(len as nat) + "],"@,
    }
}

/// The lines `ls` joined by line breaks.
pub open spec fn join_lines(ls: Seq<Seq<char>>) -> Seq<char>
    decreases ls.len(),
{
    if ls.len() == 0 {
        Seq::empty()
    } else if ls.len() == 1 {
        ls[0]
    } else {
        join_lines(ls.drop_last()) + seq!['\n'] + ls.last()
    }
}

/// The record's entries as declarations (`declaration`) or initial values,
/// one line each.
pub open spec fn item_lines(es: Seq<OffsetEntry>, items: Seq<LayoutItem>, declaration: bool) -> Seq<
    Seq<char>,
> {
    Seq::new(
        items.len(),
        |i: int|
            if declaration {
                field_line(es, items[i])
            } else {
                default_line(es, items[i])
            },
    )
}

/// The declarations of the record's entries, one per line.
pub open spec fn spec_fields_text(es: Seq<OffsetEntry>, items: Seq<LayoutItem>) -> Seq<char> {
    join_lines(item_lines(es, items, true))
}

/// The initial values of the record's entries, one per line.
pub open spec fn spec_defaults_text(es: Seq<OffsetEntry>, items: Seq<LayoutItem>) -> Seq<char> {
    join_lines(item_lines(es, items, false))
}

fn append(out: &mut Vec<char>, s: &[char])
    ensures
        final(out)@ == old(out)@ + s@,
{
    let n = s.len();
    for i in 0..n
        invariant
            n == s@.len(),
            out@ =~= old(out)@ + s@.subrange(0, i as int),
    {
        out.push(s[i]);
        assert(s@.subrange(0, i + 1) =~= s@.subrange(0, i as int).push(s@[i as int]));
    }
    assert(s@.subrange(0, n as int) =~= s@);
}

fn append_str(out: &mut Vec<char>, s: &str)
    ensures
        final(out)@ == old(out)@ + s@,
{
    let cs = names::chars_of(s);
    append(out, cs.as_slice());
}

fn append_decimal(out: &mut Vec<char>, n: u64)
    ensures
        final(out)@ == old(out)@ + decimal(n as nat),
    decreases n,
{
    if n >= 10 {
        append_decimal(out, n / 10);
    }
    let d = (n % 10) as u8;
    out.push((48u8 + d) as char);
    if n >= 10 {
        assert(final(out)@ =~= old(out)@ + decimal(n as nat));
    } else {
        assert(final(out)@ =~= old(out)@ + decimal(n as nat));
    }
}

fn append_name(out: &mut Vec<char>, es: &Vec<OffsetEntry>, var: usize)
    ensures
        final(out)@ == old(out)@ + var_name(es@, var),
{
    if var < es.len() {
        append(out, es[var].name.as_slice());
    } else {
        assert(old(out)@ + Seq::<char>::empty() =~= old(out)@);
    }
}

fn append_item(out: &mut Vec<char>, es: &Vec<OffsetEntry>, item: LayoutItem, declaration: bool)
    ensures
        final(out)@ == old(out)@ + (if declaration {
            field_line(es@, item)
        } else {
            default_line(es@, item)
        }),
{
    let ghost start = old(out)@;
    match item {
        LayoutItem::Field { var, kind } => {
            append_str(out, if declaration { "    pub " } else { "        " });
            append_name(out, es, var);
            append_str(out, ": ");
            append_str(out, if declaration { kind.rust_type() } else { kind.default_value() });
            append_str(out, ",");
        },
        LayoutItem::Padding { after, len } => {
            append_str(out, if declaration { "    pub _p" } else { "        _p" });
            append_decimal(out, after as u64);
            append_str(out, if declaration { ": [u8; " } else { ": [0; " });
            append_decimal(out, len as u64);
            append_str(out, "],");
        },
    }
    assert(out@ =~= start + (if declaration {
        field_line(es@, item)
    } else {
        default_line(es@, item)
    }));
}

fn record_text(es: &Vec<OffsetEntry>, items: &Vec<LayoutItem>, declaration: bool) -> (t: Vec<char>)
    ensures
        t@ == join_lines(item_lines(es@, items@, declaration)),
{
    let ghost lines = item_lines(es@, items@, declaration);
    let mut out: Vec<char> = Vec::new();
    let n = items.len();
    for i in 0..n
        invariant
            n == items@.len(),
            lines.len() == n,
            forall|k: int| 0 <= k < n ==> #[trigger] lines[k] == (if declaration {
                field_line(es@, items@[k])
            } else {
                default_line(es@, items@[k])
            }),
            out@ == join_lines(lines.take(i as int)),
    {
        if i > 0 {
            out.push('\n');
        }
        append_item(&mut out, es, items[i], declaration);
        proof {
            let t = lines.take(i + 1);
            assert(t.drop_last() =~= lines.take(i as int));
            if i == 0 {
                assert(lines.take(0) =~= Seq::<Seq<char>>::empty());
            }
        }
    }
    assert(lines.take(n as int) =~= lines);
    out
}

/// The declarations of the planned record's entries, one per line, as the
/// record's source lists its fields.
pub fn fields_text(es: &Vec<OffsetEntry>, items: &Vec<LayoutItem>) -> (t: Vec<char>)
    ensures
        t@ == spec_fields_text(es@, items@),
{
    record_text(es, items, true)
}

/// The initial values of the planned record's entries, one per line, as
/// the record's source lists its default.
pub fn defaults_text(es: &Vec<OffsetEntry>, items: &Vec<LayoutItem>) -> (t: Vec<char>)
    ensures
        t@ == spec_defaults_text(es@, items@),
{
    record_text(es, items, false)
}

// ---------------------------------------------------------------------------
// Filling the record's source skeleton

/// `s` with each occurrence of `pat` replaced by `w`, the occurrences taken
/// from the left and not overlapping.
pub open spec fn replaced(s: Seq<char>, pat: Seq<char>, w: Seq<char>) -> Seq<char>
    decreases s.len(),
{
    if pat.len() == 0 || s.len() < pat.len() {
        s
    } else if s.subrange(0, pat.len() as int) == pat {
        w + replaced(s.subrange(pat.len() as int, s.len() as int), pat, w)
    } else {
        seq![s[0]] + replaced(s.subrange(1, s.len() as int), pat, w)
    }
}

/// The record's source: the skeleton with its field placeholder replaced
/// by the declarations, then its default placeholder by the initial values.
pub open spec fn spec_fill_skeleton(
    skeleton: Seq<char>,
    fields: Seq<char>,
    defaults: Seq<char>,
) -> Seq<char> {
    replaced(replaced(skeleton, "pls_skeleton"@, fields), "default_skeleton"@, defaults)
}

/// Whether `pat` stands in `s` at `i`.
fn matches_at(s: &Vec<char>, i: usize, pat: &Vec<char>) -> (b: bool)
    requires
        i + pat@.len() <= s@.len(),
    ensures
        b == (s@.subrange(i as int, i + pat@.len()) == pat@),
{
    let p = pat.len();
    let mut j: usize = 0;
    while j < p
        invariant
            p == pat@.len(),
            i + p <= s.len(),
            j <= p,
            forall|k: int| 0 <= k < j ==> s@[i + k] == pat@[k],
        decreases p - j,
    {
        if s[i + j] != pat[j] {
            assert(s@.subrange(i as int, i + p)[j as int] != pat@[j as int]);
            return false;
        }
        j = j + 1;
    }
    assert(s@.subrange(i as int, i + p) =~= pat@);
    true
}

/// Appends `src[from..to]` to `out`.
fn append_range(out: &mut Vec<char>, src: &Vec<char>, from: usize, to: usize)
    requires
        from <= to <= src@.len(),
    ensures
        final(out)@ == old(out)@ + src@.subrange(from as int, to as int),
{
    let mut k: usize = from;
    while k < to
        invariant
            from <= k <= to <= src@.len(),
            out@ == old(out)@ + src@.subrange(from as int, k as int),
        decreases to - k,
    {
        assert(src@.subrange(from as int, k + 1) =~= src@.subrange(from as int, k as int).push(
            src@[k as int],
        ));
        out.push(src[k]);
        k = k + 1;
    }
}

/// `s` with each occurrence of `pat` replaced by `w` (see `replaced`).
fn replace_chars(s: &Vec<char>, pat: &Vec<char>, w: &Vec<char>) -> (r: Vec<char>)
    requires
        pat@.len() > 0,
    ensures
        r@ == replaced(s@, pat@, w@),
{
    let n = s.len();
    let p = pat.len();
    let mut out: Vec<char> = Vec::new();
    let mut i: usize = 0;
    assert(s@.subrange(0, n as int) =~= s@);
    while i < n
        invariant
            n == s@.len(),
            p == pat@.len(),
            p > 0,
            i <= n,
            out@ + replaced(s@.subrange(i as int, n as int), pat@, w@) == replaced(s@, pat@, w@),
        decreases n - i,
    {
        let ghost rest = s@.subrange(i as int, n as int);
        let ghost before = out@;
        if n - i < p {
            append_range(&mut out, s, i, n);
            assert(out@ + replaced(s@.subrange(n as int, n as int), pat@, w@) =~= before
                + replaced(rest, pat@, w@));
            i = n;
        } else if matches_at(s, i, pat) {
            assert(rest.subrange(0, p as int) =~= s@.subrange(i as int, i + p));
            assert(rest.subrange(p as int, rest.len() as int) =~= s@.subrange(i + p, n as int));
            append_range(&mut out, w, 0, w.len());
            assert(w@.subrange(0, w@.len() as int) =~= w@);
            assert(out@ + replaced(s@.subrange(i + p, n as int), pat@, w@) =~= before
                + replaced(rest, pat@, w@));
            i = i + p;
        } else {
            assert(rest.subrange(0, p as int) =~= s@.subrange(i as int, i + p));
            assert(rest.subrange(1, rest.len() as int) =~= s@.subrange(i + 1, n as int));
            out.push(s[i]);
            assert(out@ + replaced(s@.subrange(i + 1, n as int), pat@, w@) =~= before
                + replaced(rest, pat@, w@));
            i = i + 1;
        }
    }
    assert(out@ + replaced(s@.subrange(n as int, n as int), pat@, w@) =~= out@);
    out
}

/// The record's source: the skeleton with `pls_skeleton` replaced by the
/// field declarations and then `default_skeleton` by their initial values.
pub fn fill_skeleton(skeleton: &Vec<char>, fields: &Vec<char>, defaults: &Vec<char>) -> (t: Vec<
    char,
>)
    ensures
        t@ == spec_fill_skeleton(skeleton@, fields@, defaults@),
{
    let field_mark = names::chars_of("pls_skeleton");
    let default_mark = names::chars_of("default_skeleton");
    proof {
        reveal_strlit("pls_skeleton");
        reveal_strlit("default_skeleton");
    }
    let once = replace_chars(skeleton, &field_mark, fields);
    replace_chars(&once, &default_mark, defaults)
}

} // verus!
