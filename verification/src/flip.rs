//! The normal-flipping patch itself: negate, in place, every vertex normal
//! that a GLTF document's `NORMAL` accessors reference inside a binary
//! buffer.
//!
//! The buffer stores normals as little-endian IEEE-754 binary32 triples.
//! Negating such a float toggles its sign bit, the top bit of its fourth
//! byte, and leaves the other bytes as they are; the whole patch is
//! therefore specified and verified as byte-level logic.

use vstd::arithmetic::mul::lemma_mul_inequality;
use vstd::arithmetic::mul::lemma_mul_is_distributive_add_other_way;
use vstd::arithmetic::mul::lemma_mul_nonnegative;
use vstd::pervasive::VecAdditionalExecFns;
use vstd::prelude::*;

use crate::gltf::GltfDoc;
use crate::gltf::COMPONENT_TYPE_F32;

verus! {

/// The sign bit of a little-endian IEEE-754 binary32 value lives in the top
/// bit of its fourth byte; toggling that bit negates the stored float.
pub open spec fn flip_sign_byte(b: u8) -> u8 {
    b ^ 0x80
}

/// One float component at byte offset `off`: its sign byte is toggled when
/// the four component bytes lie inside the buffer, and the buffer is left
/// unchanged when they do not.
pub open spec fn flip_component(buf: Seq<u8>, off: int) -> Seq<u8> {
    if 0 <= off && off + 4 <= buf.len() {
        buf.update(off + 3, flip_sign_byte(buf[off + 3]))
    } else {
        buf
    }
}

/// One VEC3 element at byte offset `off`: its three float components, each
/// bounds-checked on its own.
pub open spec fn flip_vertex(buf: Seq<u8>, off: int) -> Seq<u8> {
    flip_component(flip_component(flip_component(buf, off), off + 4), off + 8)
}

/// `count` strided VEC3 elements starting at byte offset `base`.
pub open spec fn flip_vertices(buf: Seq<u8>, base: int, stride: int, count: nat) -> Seq<u8>
    decreases count,
{
    if count == 0 {
        buf
    } else {
        flip_vertex(
            flip_vertices(buf, base, stride, (count - 1) as nat),
            base + (count - 1) * stride,
        )
    }
}

/// An accessor is patched only when it exists, names an existing buffer
/// view, carries a count, and describes VEC3 float32 elements; anything
/// else is skipped without touching the buffer.
pub open spec fn accessor_eligible(doc: GltfDoc, idx: int) -> bool {
    &&& 0 <= idx < doc.accessors@.len()
    &&& doc.accessors@[idx].buffer_view is Some
    &&& doc.accessors@[idx].count is Some
    &&& doc.accessors@[idx].component_type == COMPONENT_TYPE_F32
    &&& doc.accessors@[idx].element_type@ == "VEC3"@
    &&& doc.accessors@[idx].buffer_view->Some_0 < doc.buffer_views@.len()
}

/// Absolute start offset of an eligible accessor's data: buffer view offset
/// plus accessor offset.
pub open spec fn accessor_base(doc: GltfDoc, idx: int) -> int
    recommends
        accessor_eligible(doc, idx),
{
    let a = doc.accessors@[idx];
    doc.buffer_views@[a.buffer_view->Some_0 as int].byte_offset + a.byte_offset
}

/// Byte stride of an eligible accessor's buffer view.
pub open spec fn accessor_stride(doc: GltfDoc, idx: int) -> int
    recommends
        accessor_eligible(doc, idx),
{
    doc.buffer_views@[doc.accessors@[idx].buffer_view->Some_0 as int].byte_stride as int
}

/// How many normals one accessor reference contributes to the reported
/// total: its element count when it is eligible, and 0 when it is skipped.
/// Elements that fail the per-component bounds check still count, as the
/// total reports elements visited, not bytes written.
pub open spec fn accessor_flip_count(doc: GltfDoc, idx: int) -> nat {
    if accessor_eligible(doc, idx) {
        doc.accessors@[idx].count->Some_0 as nat
    } else {
        0
    }
}

/// The buffer after one accessor reference is processed.
pub open spec fn flip_one_accessor(doc: GltfDoc, idx: int, buf: Seq<u8>) -> Seq<u8> {
    if accessor_eligible(doc, idx) {
        flip_vertices(
            buf,
            accessor_base(doc, idx),
            accessor_stride(doc, idx),
            accessor_flip_count(doc, idx),
        )
    } else {
        buf
    }
}

/// The buffer after the first `n` `NORMAL` accessor references of the
/// document are processed in order.
pub open spec fn flip_all_spec(doc: GltfDoc, buf: Seq<u8>, n: int) -> Seq<u8>
    decreases n,
{
    if n <= 0 {
        buf
    } else {
        flip_one_accessor(doc, doc.normal_refs@[n - 1] as int, flip_all_spec(doc, buf, n - 1))
    }
}

/// Total normals reported for the first `n` `NORMAL` accessor references.
pub open spec fn flip_total_count(doc: GltfDoc, n: int) -> nat
    decreases n,
{
    if n <= 0 {
        0
    } else {
        flip_total_count(doc, n - 1) + accessor_flip_count(doc, doc.normal_refs@[n - 1] as int)
    }
}

/// Toggling the sign bit twice restores the original byte.
pub proof fn lemma_flip_sign_byte_involutive(b: u8)
    ensures
        flip_sign_byte(flip_sign_byte(b)) == b,
{
    assert((b ^ 0x80) ^ 0x80 == b) by (bit_vector);
}

/// Patching never changes the buffer's length, at any level.
pub proof fn lemma_flip_vertices_len(buf: Seq<u8>, base: int, stride: int, count: nat)
    ensures
        flip_vertices(buf, base, stride, count).len() == buf.len(),
    decreases count,
{
    if count > 0 {
        lemma_flip_vertices_len(buf, base, stride, (count - 1) as nat);
    }
}

/// A component whose four bytes do not fit in the buffer is skipped: the
/// buffer is unchanged there.
pub proof fn lemma_flip_component_out_of_range(buf: Seq<u8>, off: int)
    requires
        off + 4 > buf.len(),
    ensures
        flip_component(buf, off) == buf,
{
}

/// A vertex starting at or past the end of the usable range is skipped
/// entirely.
pub proof fn lemma_flip_vertex_out_of_range(buf: Seq<u8>, off: int)
    requires
        off + 4 > buf.len(),
    ensures
        flip_vertex(buf, off) == buf,
{
}

/// When even the base offset lies at or past the end of the buffer, no
/// element of the accessor is in range and the buffer stays as it is.
pub proof fn lemma_flip_vertices_out_of_range(buf: Seq<u8>, base: int, stride: int, count: nat)
    requires
        base >= buf.len(),
        stride >= 0,
    ensures
        flip_vertices(buf, base, stride, count) == buf,
    decreases count,
{
    if count > 0 {
        lemma_flip_vertices_out_of_range(buf, base, stride, (count - 1) as nat);
        lemma_mul_nonnegative((count - 1) as int, stride);
        lemma_flip_vertex_out_of_range(buf, base + (count - 1) * stride);
    }
}

/// The reported total for `n` references is at most `n` elements of at most
/// `u64::MAX` normals each.
pub proof fn lemma_flip_total_count_bound(doc: GltfDoc, n: int)
    requires
        n >= 0,
    ensures
        flip_total_count(doc, n) <= n * 0xffff_ffff_ffff_ffff,
    decreases n,
{
    if n > 0 {
        lemma_flip_total_count_bound(doc, n - 1);
    }
}

/// Two component patches at any two offsets commute: each one either
/// toggles one fixed byte or does nothing.
pub proof fn lemma_flip_component_commutes(buf: Seq<u8>, o1: int, o2: int)
    ensures
        flip_component(flip_component(buf, o1), o2) == flip_component(
            flip_component(buf, o2),
            o1,
        ),
{
    assert(flip_component(flip_component(buf, o1), o2) =~= flip_component(
        flip_component(buf, o2),
        o1,
    ));
}

/// Patching the same component twice restores the buffer.
pub proof fn lemma_flip_component_involutive(buf: Seq<u8>, off: int)
    ensures
        flip_component(flip_component(buf, off), off) == buf,
{
    if 0 <= off && off + 4 <= buf.len() {
        lemma_flip_sign_byte_involutive(buf[off + 3]);
    }
    assert(flip_component(flip_component(buf, off), off) =~= buf);
}

/// A component patch commutes with a whole-vertex patch.
pub proof fn lemma_flip_component_vertex_commutes(buf: Seq<u8>, o: int, vo: int)
    ensures
        flip_component(flip_vertex(buf, vo), o) == flip_vertex(flip_component(buf, o), vo),
{
    let b0 = flip_component(buf, vo);
    let b1 = flip_component(b0, vo + 4);
    lemma_flip_component_commutes(b1, vo + 8, o);
    lemma_flip_component_commutes(b0, vo + 4, o);
    lemma_flip_component_commutes(buf, vo, o);
}

/// A component patch commutes with a whole-accessor range patch.
pub proof fn lemma_flip_component_vertices_commutes(
    buf: Seq<u8>,
    o: int,
    base: int,
    stride: int,
    count: nat,
)
    ensures
        flip_component(flip_vertices(buf, base, stride, count), o) == flip_vertices(
            flip_component(buf, o),
            base,
            stride,
            count,
        ),
    decreases count,
{
    if count > 0 {
        lemma_flip_component_vertices_commutes(buf, o, base, stride, (count - 1) as nat);
        lemma_flip_component_vertex_commutes(
            flip_vertices(buf, base, stride, (count - 1) as nat),
            o,
            base + (count - 1) * stride,
        );
    }
}

/// A vertex patch commutes with a whole-accessor range patch.
pub proof fn lemma_flip_vertex_vertices_commutes(
    buf: Seq<u8>,
    vo: int,
    base: int,
    stride: int,
    count: nat,
)
    ensures
        flip_vertex(flip_vertices(buf, base, stride, count), vo) == flip_vertices(
            flip_vertex(buf, vo),
            base,
            stride,
            count,
        ),
{
    lemma_flip_component_vertices_commutes(buf, vo, base, stride, count);
    lemma_flip_component_vertices_commutes(flip_component(buf, vo), vo + 4, base, stride, count);
    lemma_flip_component_vertices_commutes(
        flip_component(flip_component(buf, vo), vo + 4),
        vo + 8,
        base,
        stride,
        count,
    );
}

/// Patching the same vertex twice restores the buffer.
pub proof fn lemma_flip_vertex_involutive(buf: Seq<u8>, off: int)
    ensures
        flip_vertex(flip_vertex(buf, off), off) == buf,
{
    let b0 = flip_component(buf, off);
    let b1 = flip_component(b0, off + 4);
    let c4 = flip_component(buf, off + 4);
    lemma_flip_component_commutes(b1, off + 8, off);
    lemma_flip_component_commutes(b0, off + 4, off);
    lemma_flip_component_involutive(buf, off);
    lemma_flip_component_commutes(c4, off + 8, off + 4);
    lemma_flip_component_involutive(buf, off + 4);
    lemma_flip_component_involutive(buf, off + 8);
}

/// Patching the same accessor range twice restores the buffer.
pub proof fn lemma_flip_vertices_involutive(buf: Seq<u8>, base: int, stride: int, count: nat)
    ensures
        flip_vertices(flip_vertices(buf, base, stride, count), base, stride, count) == buf,
    decreases count,
{
    if count > 0 {
        let prev = (count - 1) as nat;
        let on = base + (count - 1) * stride;
        let x = flip_vertices(buf, base, stride, prev);
        lemma_flip_vertex_vertices_commutes(x, on, base, stride, prev);
        lemma_flip_vertices_involutive(buf, base, stride, prev);
        lemma_flip_vertex_involutive(buf, on);
        assert(flip_vertices(flip_vertex(x, on), base, stride, prev) == flip_vertex(
            flip_vertices(x, base, stride, prev),
            on,
        ));
    }
}

/// A component patch commutes with one accessor reference's patch.
pub proof fn lemma_flip_component_accessor_commutes(doc: GltfDoc, idx: int, buf: Seq<u8>, o: int)
    ensures
        flip_component(flip_one_accessor(doc, idx, buf), o) == flip_one_accessor(
            doc,
            idx,
            flip_component(buf, o),
        ),
{
    if accessor_eligible(doc, idx) {
        lemma_flip_component_vertices_commutes(
            buf,
            o,
            accessor_base(doc, idx),
            accessor_stride(doc, idx),
            accessor_flip_count(doc, idx),
        );
    }
}

/// A vertex patch commutes with one accessor reference's patch.
pub proof fn lemma_flip_vertex_accessor_commutes(doc: GltfDoc, idx: int, buf: Seq<u8>, vo: int)
    ensures
        flip_vertex(flip_one_accessor(doc, idx, buf), vo) == flip_one_accessor(
            doc,
            idx,
            flip_vertex(buf, vo),
        ),
{
    lemma_flip_component_accessor_commutes(doc, idx, buf, vo);
    lemma_flip_component_accessor_commutes(doc, idx, flip_component(buf, vo), vo + 4);
    lemma_flip_component_accessor_commutes(
        doc,
        idx,
        flip_component(flip_component(buf, vo), vo + 4),
        vo + 8,
    );
}

/// An accessor range patch commutes with one accessor reference's patch.
pub proof fn lemma_flip_vertices_accessor_commutes(
    doc: GltfDoc,
    idx: int,
    buf: Seq<u8>,
    base: int,
    stride: int,
    count: nat,
)
    ensures
        flip_vertices(flip_one_accessor(doc, idx, buf), base, stride, count) == flip_one_accessor(
            doc,
            idx,
            flip_vertices(buf, base, stride, count),
        ),
    decreases count,
{
    if count > 0 {
        let prev = (count - 1) as nat;
        lemma_flip_vertices_accessor_commutes(doc, idx, buf, base, stride, prev);
        lemma_flip_vertex_accessor_commutes(
            doc,
            idx,
            flip_vertices(buf, base, stride, prev),
            base + (count - 1) * stride,
        );
    }
}

/// Two accessor references' patches commute.
pub proof fn lemma_flip_accessor_accessor_commutes(doc: GltfDoc, i1: int, i2: int, buf: Seq<u8>)
    ensures
        flip_one_accessor(doc, i1, flip_one_accessor(doc, i2, buf)) == flip_one_accessor(
            doc,
            i2,
            flip_one_accessor(doc, i1, buf),
        ),
{
    if accessor_eligible(doc, i1) {
        lemma_flip_vertices_accessor_commutes(
            doc,
            i2,
            buf,
            accessor_base(doc, i1),
            accessor_stride(doc, i1),
            accessor_flip_count(doc, i1),
        );
    }
}

/// One accessor reference's patch commutes with a whole run over the first
/// `n` references.
pub proof fn lemma_flip_accessor_all_commutes(doc: GltfDoc, idx: int, buf: Seq<u8>, n: int)
    ensures
        flip_one_accessor(doc, idx, flip_all_spec(doc, buf, n)) == flip_all_spec(
            doc,
            flip_one_accessor(doc, idx, buf),
            n,
        ),
    decreases n,
{
    if n > 0 {
        lemma_flip_accessor_accessor_commutes(
            doc,
            idx,
            doc.normal_refs@[n - 1] as int,
            flip_all_spec(doc, buf, n - 1),
        );
        lemma_flip_accessor_all_commutes(doc, idx, buf, n - 1);
    }
}

/// Patching the same accessor reference twice restores the buffer.
pub proof fn lemma_flip_one_accessor_involutive(doc: GltfDoc, idx: int, buf: Seq<u8>)
    ensures
        flip_one_accessor(doc, idx, flip_one_accessor(doc, idx, buf)) == buf,
{
    if accessor_eligible(doc, idx) {
        lemma_flip_vertices_involutive(
            buf,
            accessor_base(doc, idx),
            accessor_stride(doc, idx),
            accessor_flip_count(doc, idx),
        );
    }
}

proof fn lemma_flip_all_involutive_upto(doc: GltfDoc, buf: Seq<u8>, n: int)
    ensures
        flip_all_spec(doc, flip_all_spec(doc, buf, n), n) == buf,
    decreases n,
{
    if n > 0 {
        let r = doc.normal_refs@[n - 1] as int;
        let x = flip_all_spec(doc, buf, n - 1);
        lemma_flip_accessor_all_commutes(doc, r, x, n - 1);
        lemma_flip_all_involutive_upto(doc, buf, n - 1);
        lemma_flip_one_accessor_involutive(doc, r, buf);
    }
}

/// Running the patch twice over the same document restores the binary
/// buffer bit for bit: every patched position is toggled exactly twice,
/// every skipped position not at all.
pub proof fn lemma_flip_all_involutive(doc: GltfDoc, buf: Seq<u8>)
    ensures
        flip_all_spec(
            doc,
            flip_all_spec(doc, buf, doc.normal_refs@.len() as int),
            doc.normal_refs@.len() as int,
        ) == buf,
{
    lemma_flip_all_involutive_upto(doc, buf, doc.normal_refs@.len() as int);
}

/// A run that reports zero normals leaves the buffer exactly as it was;
/// nothing then needs to be written back.
pub proof fn lemma_zero_total_unchanged(doc: GltfDoc, buf: Seq<u8>, n: int)
    requires
        flip_total_count(doc, n) == 0,
    ensures
        flip_all_spec(doc, buf, n) == buf,
    decreases n,
{
    if n > 0 {
        lemma_zero_total_unchanged(doc, buf, n - 1);
    }
}

/// A `NORMAL` accessor that is not VEC3 float32 is skipped: it contributes
/// no flips and leaves the buffer unchanged, without stopping the run.
pub proof fn lemma_unsupported_accessor_skipped(doc: GltfDoc, idx: int, buf: Seq<u8>)
    requires
        doc.accessors@[idx].component_type != COMPONENT_TYPE_F32 || doc.accessors@[idx].element_type@
            != "VEC3"@,
    ensures
        flip_one_accessor(doc, idx, buf) == buf,
        accessor_flip_count(doc, idx) == 0,
{
}

/// First byte of component `j` of element `i` of an accessor range.
pub open spec fn component_off(base: int, stride: int, i: int, j: int) -> int {
    base + i * stride + j * 4
}

/// `q` is a byte position the range patch toggles: the sign byte of a
/// component whose four bytes are inside the buffer.
pub open spec fn sign_byte_pos(q: int, base: int, stride: int, count: nat, len: int) -> bool {
    exists|i: int, j: int|
        0 <= i < count && 0 <= j < 3 && component_off(base, stride, i, j) + 4 <= len && q
            == #[trigger] component_off(base, stride, i, j) + 3
}

proof fn lemma_flip_vertex_pointwise(buf: Seq<u8>, off: int)
    requires
        off >= 0,
    ensures
        flip_vertex(buf, off).len() == buf.len(),
        forall|q: int|
            0 <= q < buf.len() && q != off + 3 && q != off + 7 && q != off + 11
                ==> flip_vertex(buf, off)[q] == buf[q],
        off + 3 < buf.len() ==> flip_vertex(buf, off)[off + 3] == flip_sign_byte(buf[off + 3]),
        off + 7 < buf.len() ==> flip_vertex(buf, off)[off + 7] == flip_sign_byte(buf[off + 7]),
        off + 11 < buf.len() ==> flip_vertex(buf, off)[off + 11] == flip_sign_byte(buf[off + 11]),
{
}

/// The range patch, byte for byte, when elements do not overlap (stride at
/// least the 12 bytes of a VEC3): a toggled sign byte exactly at every
/// in-range component, every other byte — out-of-range components
/// included — unchanged.
pub proof fn lemma_flip_vertices_pointwise(buf: Seq<u8>, base: int, stride: int, count: nat)
    requires
        base >= 0,
        stride >= 12,
    ensures
        flip_vertices(buf, base, stride, count).len() == buf.len(),
        forall|q: int|
            0 <= q < buf.len() && sign_byte_pos(q, base, stride, count, buf.len() as int)
                ==> flip_vertices(buf, base, stride, count)[q] == flip_sign_byte(buf[q]),
        forall|q: int|
            0 <= q < buf.len() && !sign_byte_pos(q, base, stride, count, buf.len() as int)
                ==> flip_vertices(buf, base, stride, count)[q] == buf[q],
    decreases count,
{
    let len = buf.len() as int;
    let res = flip_vertices(buf, base, stride, count);
    if count == 0 {
    } else {
        let prev = (count - 1) as nat;
        lemma_flip_vertices_pointwise(buf, base, stride, prev);
        let x = flip_vertices(buf, base, stride, prev);
        let on = base + (count - 1) * stride;
        lemma_mul_nonnegative((count - 1) as int, stride);
        lemma_flip_vertex_pointwise(x, on);
        assert forall|q: int|
            0 <= q < len && sign_byte_pos(q, base, stride, count, len) implies res[q]
            == flip_sign_byte(buf[q]) by {
            let (i, j) = choose|i: int, j: int|
                0 <= i < count && 0 <= j < 3 && component_off(base, stride, i, j) + 4 <= len && q
                    == component_off(base, stride, i, j) + 3;
            if i == count - 1 {
                assert(!sign_byte_pos(q, base, stride, prev, len)) by {
                    if sign_byte_pos(q, base, stride, prev, len) {
                        let (i2, j2) = choose|i2: int, j2: int|
                            0 <= i2 < prev && 0 <= j2 < 3 && component_off(base, stride, i2, j2) + 4
                                <= len && q == component_off(base, stride, i2, j2) + 3;
                        lemma_mul_is_distributive_add_other_way(stride, i2, 1);
                        lemma_mul_inequality(i2 + 1, (count - 1) as int, stride);
                        assert(false);
                    }
                }
            } else {
                assert(sign_byte_pos(q, base, stride, prev, len)) by {
                    assert(0 <= i < prev && 0 <= j < 3 && component_off(base, stride, i, j) + 4
                        <= len && q == component_off(base, stride, i, j) + 3);
                }
                assert(q != on + 3 && q != on + 7 && q != on + 11) by {
                    lemma_mul_is_distributive_add_other_way(stride, i, 1);
                    lemma_mul_inequality(i + 1, (count - 1) as int, stride);
                }
            }
        }
        assert forall|q: int|
            0 <= q < len && !sign_byte_pos(q, base, stride, count, len) implies res[q]
            == buf[q] by {
            if q == on + 3 || q == on + 7 || q == on + 11 {
                let j = (q - on - 3) / 4;
                assert(q == component_off(base, stride, (count - 1) as int, j) + 3);
                assert(component_off(base, stride, (count - 1) as int, j) + 4 <= len);
                assert(sign_byte_pos(q, base, stride, count, len));
                assert(false);
            }
            assert(!sign_byte_pos(q, base, stride, prev, len)) by {
                if sign_byte_pos(q, base, stride, prev, len) {
                    let (i2, j2) = choose|i2: int, j2: int|
                        0 <= i2 < prev && 0 <= j2 < 3 && component_off(base, stride, i2, j2) + 4
                            <= len && q == component_off(base, stride, i2, j2) + 3;
                    assert(sign_byte_pos(q, base, stride, count, len));
                    assert(false);
                }
            }
        }
    }
}

/// Every byte of an out-of-range component of an eligible accessor stays
/// unchanged, while every in-range component still has its sign byte
/// toggled: the element-by-element bounds check loses only what does not
/// fit. Stated for accessors whose elements do not overlap (stride at
/// least 12); with a smaller stride the elements share bytes and a byte
/// can be toggled more than once.
pub proof fn lemma_flip_one_accessor_pointwise(doc: GltfDoc, idx: int, buf: Seq<u8>)
    requires
        accessor_eligible(doc, idx),
        accessor_stride(doc, idx) >= 12,
    ensures
        flip_one_accessor(doc, idx, buf).len() == buf.len(),
        forall|q: int|
            0 <= q < buf.len() && sign_byte_pos(
                q,
                accessor_base(doc, idx),
                accessor_stride(doc, idx),
                accessor_flip_count(doc, idx),
                buf.len() as int,
            ) ==> flip_one_accessor(doc, idx, buf)[q] == flip_sign_byte(buf[q]),
        forall|q: int|
            0 <= q < buf.len() && !sign_byte_pos(
                q,
                accessor_base(doc, idx),
                accessor_stride(doc, idx),
                accessor_flip_count(doc, idx),
                buf.len() as int,
            ) ==> flip_one_accessor(doc, idx, buf)[q] == buf[q],
{
    lemma_flip_vertices_pointwise(
        buf,
        accessor_base(doc, idx),
        accessor_stride(doc, idx),
        accessor_flip_count(doc, idx),
    );
}

/// Toggle the sign byte of the float component at byte offset `off`, when
/// its four bytes are inside the buffer; do nothing otherwise.
fn flip_component_at(bin: &mut Vec<u8>, off: u64)
    ensures
        final(bin)@ == flip_component(old(bin)@, off as int),
        final(bin)@.len() == old(bin)@.len(),
{
    let len = bin.len();
    if off < len as u64 && (len as u64) - off >= 4 {
        let idx: usize = (off + 3) as usize;
        let b = bin[idx];
        bin.set(idx, b ^ 0x80);
    }
}

/// Patch one VEC3 element whose first byte sits at offset `off`, component
/// by component.
fn flip_vertex_at(bin: &mut Vec<u8>, off: u64)
    ensures
        final(bin)@ == flip_vertex(old(bin)@, off as int),
        final(bin)@.len() == old(bin)@.len(),
{
    let ghost len0 = bin@.len();
    flip_component_at(bin, off);
    match off.checked_add(4) {
        Some(o2) => {
            flip_component_at(bin, o2);
        },
        None => {
            proof {
                assert(bin@.len() == bin.len());
                lemma_flip_component_out_of_range(bin@, off as int + 4);
            }
        },
    }
    match off.checked_add(8) {
        Some(o3) => {
            flip_component_at(bin, o3);
        },
        None => {
            proof {
                assert(bin@.len() == bin.len());
                lemma_flip_component_out_of_range(bin@, off as int + 8);
            }
        },
    }
}

/// Process one `NORMAL` accessor reference: negate every in-range component
/// of its `count` strided VEC3 elements and report that count, or skip the
/// accessor altogether — leaving the buffer untouched and reporting 0 —
/// when the reference or its fields do not describe VEC3 float32 data.
pub fn flip_accessor_normals(doc: &GltfDoc, accessor_idx: u64, bin: &mut Vec<u8>) -> (flipped: u64)
    ensures
        final(bin)@ == flip_one_accessor(*doc, accessor_idx as int, old(bin)@),
        flipped == accessor_flip_count(*doc, accessor_idx as int),
        final(bin)@.len() == old(bin)@.len(),
        !accessor_eligible(*doc, accessor_idx as int) ==> flipped == 0 && final(bin)@ == old(
            bin,
        )@,
{
    if accessor_idx >= doc.accessors.len() as u64 {
        return 0;
    }
    let a = &doc.accessors[accessor_idx as usize];
    let bv_idx = match a.buffer_view {
        Some(b) => b,
        None => {
            return 0;
        },
    };
    let count = match a.count {
        Some(c) => c,
        None => {
            return 0;
        },
    };
    let vec3: String = "VEC3".to_owned();
    if a.component_type != COMPONENT_TYPE_F32 || a.element_type != vec3 {
        return 0;
    }
    if bv_idx >= doc.buffer_views.len() as u64 {
        return 0;
    }
    let view = &doc.buffer_views[bv_idx as usize];
    let stride = view.byte_stride;
    let ghost sbase = accessor_base(*doc, accessor_idx as int);
    let base = match view.byte_offset.checked_add(a.byte_offset) {
        Some(b) => b,
        None => {
            proof {
                assert(bin@.len() == bin.len());
                lemma_flip_vertices_out_of_range(bin@, sbase, stride as int, count as nat);
            }
            return count;
        },
    };
    let mut i: u64 = 0;
    while i < count
        invariant
            i <= count,
            accessor_eligible(*doc, accessor_idx as int),
            base == accessor_base(*doc, accessor_idx as int),
            stride == accessor_stride(*doc, accessor_idx as int),
            count == accessor_flip_count(*doc, accessor_idx as int),
            bin@ == flip_vertices(old(bin)@, base as int, stride as int, i as nat),
            bin@.len() == old(bin)@.len(),
        decreases count - i,
    {
        let ghost off = base as int + i as int * stride as int;
        match i.checked_mul(stride) {
            Some(rel) => {
                match base.checked_add(rel) {
                    Some(voff) => {
                        flip_vertex_at(bin, voff);
                    },
                    None => {
                        proof {
                            assert(bin@.len() == bin.len());
                            lemma_flip_vertex_out_of_range(bin@, off);
                        }
                    },
                }
            },
            None => {
                proof {
                    assert(bin@.len() == bin.len());
                    lemma_mul_nonnegative(i as int, stride as int);
                    lemma_flip_vertex_out_of_range(bin@, off);
                }
            },
        }
        i = i + 1;
    }
    count
}

/// Process every `NORMAL` accessor reference of the document, in document
/// order, and return the total number of normals reported. A total of 0
/// means the buffer was not modified at all.
pub fn flip_all_normals(doc: &GltfDoc, bin: &mut Vec<u8>) -> (flipped: u128)
    ensures
        final(bin)@ == flip_all_spec(*doc, old(bin)@, doc.normal_refs@.len() as int),
        flipped == flip_total_count(*doc, doc.normal_refs@.len() as int),
        final(bin)@.len() == old(bin)@.len(),
        doc.normal_refs@.len() == 0 ==> flipped == 0 && final(bin)@ == old(bin)@,
{
    let n = doc.normal_refs.len();
    let mut total: u128 = 0;
    let mut k: usize = 0;
    while k < n
        invariant
            k <= n,
            n == doc.normal_refs@.len(),
            bin@ == flip_all_spec(*doc, old(bin)@, k as int),
            total == flip_total_count(*doc, k as int),
            bin@.len() == old(bin)@.len(),
        decreases n - k,
    {
        let r = doc.normal_refs[k];
        proof {
            lemma_flip_total_count_bound(*doc, k as int);
        }
        let c = flip_accessor_normals(doc, r, bin);
        total = total + c as u128;
        k = k + 1;
    }
    total
}

} // verus!
