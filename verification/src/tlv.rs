//! Matter TLV: tag-length-value elements with anonymous or context tags.
//! Elements form a tree; structs, arrays and lists hold child elements and
//! are closed by an end-of-container mark. Encoding and decoding are defined
//! over a mathematical tree model and proved inverse to each other.

use crate::error::Error;
use vstd::bytes::{
    spec_u16_from_le_bytes, spec_u16_to_le_bytes, spec_u32_from_le_bytes, spec_u32_to_le_bytes,
    spec_u64_from_le_bytes, spec_u64_to_le_bytes,
};
use vstd::prelude::*;
use vstd::slice::{slice_subrange, slice_to_vec};

verus! {

/// How an element is tagged: not at all, or with a one-byte context tag.
#[derive(Clone, Copy, Debug, PartialEq, Eq, Structural)]
pub enum TagType {
    Anonymous,
    Context(u8),
}

/// An owned TLV value: primitives, byte and character strings, and the three
/// container kinds.
pub enum TLVValue {
    Bool(bool),
    I8(i8),
    I64(i64),
    U8(u8),
    U16(u16),
    U32(u32),
    U64(u64),
    Utf8(Vec<u8>),
    Str8(Vec<u8>),
    Str16(Vec<u8>),
    Struct(Vec<TLVElement>),
    Array(Vec<TLVElement>),
    List(Vec<TLVElement>),
}

/// An owned TLV element: a tag and a value.
pub struct TLVElement {
    pub tag: TagType,
    pub value: TLVValue,
}

/// The mathematical model of a TLV value.
pub enum TlvTree {
    Bool(bool),
    I8(i8),
    I64(i64),
    U8(u8),
    U16(u16),
    U32(u32),
    U64(u64),
    Utf8(Seq<u8>),
    Str8(Seq<u8>),
    Str16(Seq<u8>),
    Struct(Seq<TlvNode>),
    Array(Seq<TlvNode>),
    List(Seq<TlvNode>),
}

/// The mathematical model of a TLV element.
pub struct TlvNode {
    pub tag: TagType,
    pub value: TlvTree,
}

pub open spec fn value_view(v: TLVValue) -> TlvTree
    decreases v,
{
    match v {
        TLVValue::Bool(b) => TlvTree::Bool(b),
        TLVValue::I8(x) => TlvTree::I8(x),
        TLVValue::I64(x) => TlvTree::I64(x),
        TLVValue::U8(x) => TlvTree::U8(x),
        TLVValue::U16(x) => TlvTree::U16(x),
        TLVValue::U32(x) => TlvTree::U32(x),
        TLVValue::U64(x) => TlvTree::U64(x),
        TLVValue::Utf8(s) => TlvTree::Utf8(s@),
        TLVValue::Str8(s) => TlvTree::Str8(s@),
        TLVValue::Str16(s) => TlvTree::Str16(s@),
        TLVValue::Struct(cs) => TlvTree::Struct(elems_view(cs@)),
        TLVValue::Array(cs) => TlvTree::Array(elems_view(cs@)),
        TLVValue::List(cs) => TlvTree::List(elems_view(cs@)),
    }
}

pub open spec fn node_view(e: TLVElement) -> TlvNode
    decreases e,
{
    TlvNode { tag: e.tag, value: value_view(e.value) }
}

pub open spec fn elems_view(s: Seq<TLVElement>) -> Seq<TlvNode>
    decreases s,
{
    if s.len() == 0 {
        Seq::empty()
    } else {
        seq![node_view(s[0])] + elems_view(s.drop_first())
    }
}

impl View for TLVElement {
    type V = TlvNode;

    open spec fn view(&self) -> TlvNode {
        node_view(*self)
    }
}

impl View for TLVValue {
    type V = TlvTree;

    open spec fn view(&self) -> TlvTree {
        value_view(*self)
    }
}

/// Whether every string in the tree fits its length field.
pub open spec fn wf_tree(t: TlvTree) -> bool
    decreases t,
{
    match t {
        TlvTree::Utf8(s) => s.len() <= 255,
        TlvTree::Str8(s) => s.len() <= 255,
        TlvTree::Str16(s) => s.len() <= 65535,
        TlvTree::Struct(cs) => wf_nodes(cs),
        TlvTree::Array(cs) => wf_nodes(cs),
        TlvTree::List(cs) => wf_nodes(cs),
        _ => true,
    }
}

pub open spec fn wf_nodes(cs: Seq<TlvNode>) -> bool
    decreases cs,
{
    if cs.len() == 0 {
        true
    } else {
        wf_tree(cs[0].value) && wf_nodes(cs.drop_first())
    }
}

/// The tag-control bits of the control byte.
pub open spec fn spec_tag_ctl(t: TagType) -> u8 {
    match t {
        TagType::Anonymous => 0x00,
        TagType::Context(_) => 0x20,
    }
}

/// The bytes of the tag itself, following the control byte.
pub open spec fn spec_tag_bytes(t: TagType) -> Seq<u8> {
    match t {
        TagType::Anonymous => Seq::empty(),
        TagType::Context(c) => seq![c],
    }
}

/// The element-type bits of the control byte.
pub open spec fn spec_elem_code(t: TlvTree) -> u8 {
    match t {
        TlvTree::Bool(b) => if b {
            0x09
        } else {
            0x08
        },
        TlvTree::I8(_) => 0x00,
        TlvTree::I64(_) => 0x03,
        TlvTree::U8(_) => 0x04,
        TlvTree::U16(_) => 0x05,
        TlvTree::U32(_) => 0x06,
        TlvTree::U64(_) => 0x07,
        TlvTree::Utf8(_) => 0x0c,
        TlvTree::Str8(_) => 0x10,
        TlvTree::Str16(_) => 0x11,
        TlvTree::Struct(_) => 0x15,
        TlvTree::Array(_) => 0x16,
        TlvTree::List(_) => 0x17,
    }
}

/// The end-of-container mark.
pub const END_CONTAINER: u8 = 0x18;

/// The value bytes of an element (for containers: children, then the mark).
pub open spec fn spec_encode_payload(t: TlvTree) -> Seq<u8>
    decreases t, 1int,
{
    match t {
        TlvTree::Bool(_) => Seq::empty(),
        TlvTree::I8(x) => seq![x as u8],
        TlvTree::I64(x) => spec_u64_to_le_bytes(x as u64),
        TlvTree::U8(x) => seq![x],
        TlvTree::U16(x) => spec_u16_to_le_bytes(x),
        TlvTree::U32(x) => spec_u32_to_le_bytes(x),
        TlvTree::U64(x) => spec_u64_to_le_bytes(x),
        TlvTree::Utf8(s) => seq![s.len() as u8] + s,
        TlvTree::Str8(s) => seq![s.len() as u8] + s,
        TlvTree::Str16(s) => spec_u16_to_le_bytes(s.len() as u16) + s,
        TlvTree::Struct(cs) => spec_encode_children(cs) + seq![END_CONTAINER],
        TlvTree::Array(cs) => spec_encode_children(cs) + seq![END_CONTAINER],
        TlvTree::List(cs) => spec_encode_children(cs) + seq![END_CONTAINER],
    }
}

/// The full encoding of one element: control byte, tag bytes, value bytes.
pub open spec fn spec_encode_node(n: TlvNode) -> Seq<u8>
    decreases n.value, 2int,
{
    seq![(spec_tag_ctl(n.tag) + spec_elem_code(n.value)) as u8] + spec_tag_bytes(n.tag)
        + spec_encode_payload(n.value)
}

/// The concatenated encodings of a run of child elements.
pub open spec fn spec_encode_children(cs: Seq<TlvNode>) -> Seq<u8>
    decreases cs, 0int,
{
    if cs.len() == 0 {
        Seq::empty()
    } else {
        spec_encode_node(cs[0]) + spec_encode_children(cs.drop_first())
    }
}

/// `elems_view` maps the sequence pointwise.
pub proof fn lemma_elems_view(s: Seq<TLVElement>)
    ensures
        elems_view(s).len() == s.len(),
        forall|i: int| 0 <= i < s.len() ==> elems_view(s)[i] == node_view(s[i]),
    decreases s,
{
    if s.len() > 0 {
        lemma_elems_view(s.drop_first());
    }
}

/// `wf_nodes` holds exactly when every member tree is well formed.
pub proof fn lemma_wf_nodes(cs: Seq<TlvNode>)
    ensures
        wf_nodes(cs) <==> (forall|i: int| 0 <= i < cs.len() ==> wf_tree(cs[i].value)),
    decreases cs,
{
    if cs.len() > 0 {
        lemma_wf_nodes(cs.drop_first());
        if wf_nodes(cs) {
            assert forall|i: int| 0 <= i < cs.len() implies wf_tree(cs[i].value) by {
                if i > 0 {
                    assert(cs.drop_first()[i - 1] == cs[i]);
                }
            }
        }
        if forall|i: int| 0 <= i < cs.len() ==> wf_tree(cs[i].value) {
            assert forall|j: int| 0 <= j < cs.drop_first().len() implies wf_tree(
                cs.drop_first()[j].value,
            ) by {
                assert(cs.drop_first()[j] == cs[j + 1]);
                assert(wf_tree(cs[j + 1].value));
            }
            assert(wf_nodes(cs.drop_first()));
        }
    }
}

/// Appending one node appends its encoding.
pub proof fn lemma_encode_children_snoc(cs: Seq<TlvNode>, n: TlvNode)
    ensures
        spec_encode_children(cs.push(n)) == spec_encode_children(cs) + spec_encode_node(n),
    decreases cs,
{
    if cs.len() == 0 {
        assert(cs.push(n)[0] == n);
        assert(cs.push(n).drop_first() =~= Seq::<TlvNode>::empty());
        assert(spec_encode_children(cs.push(n)) == spec_encode_node(n) + spec_encode_children(
            Seq::<TlvNode>::empty(),
        ));
        assert(spec_encode_children(cs.push(n)) =~= spec_encode_children(cs)
            + spec_encode_node(n));
    } else {
        assert(cs.push(n)[0] == cs[0]);
        assert(cs.push(n).drop_first() =~= cs.drop_first().push(n));
        lemma_encode_children_snoc(cs.drop_first(), n);
        assert(spec_encode_children(cs.push(n)) == spec_encode_node(cs[0])
            + spec_encode_children(cs.drop_first().push(n)));
        assert(spec_encode_children(cs.push(n)) =~= spec_encode_children(cs)
            + spec_encode_node(n));
    }
}

/// Appends the encoding of `e` to `out`.
pub fn encode_element(e: &TLVElement, out: &mut Vec<u8>)
    requires
        wf_tree(e@.value),
    ensures
        final(out)@ == old(out)@ + spec_encode_node(e@),
    decreases *e,
{
    let code: u8 = match &e.value {
        TLVValue::Bool(b) => if *b {
            0x09
        } else {
            0x08
        },
        TLVValue::I8(_) => 0x00,
        TLVValue::I64(_) => 0x03,
        TLVValue::U8(_) => 0x04,
        TLVValue::U16(_) => 0x05,
        TLVValue::U32(_) => 0x06,
        TLVValue::U64(_) => 0x07,
        TLVValue::Utf8(_) => 0x0c,
        TLVValue::Str8(_) => 0x10,
        TLVValue::Str16(_) => 0x11,
        TLVValue::Struct(_) => 0x15,
        TLVValue::Array(_) => 0x16,
        TLVValue::List(_) => 0x17,
    };
    match &e.tag {
        TagType::Anonymous => {
            out.push(code);
        },
        TagType::Context(c) => {
            out.push(0x20 + code);
            out.push(*c);
        },
    }
    proof {
        assert(out@ =~= old(out)@ + seq![(spec_tag_ctl(e@.tag) + spec_elem_code(e@.value)) as u8]
            + spec_tag_bytes(e@.tag));
    }
    let ghost head = out@;
    match &e.value {
        TLVValue::Bool(_) => {},
        TLVValue::I8(x) => {
            out.push(#[verifier::truncate] (*x as u8));
        },
        TLVValue::I64(x) => {
            let b = vstd::bytes::u64_to_le_bytes(#[verifier::truncate] (*x as u64));
            crate::crypto::extend_bytes(out, b.as_slice());
        },
        TLVValue::U8(x) => {
            out.push(*x);
        },
        TLVValue::U16(x) => {
            let b = vstd::bytes::u16_to_le_bytes(*x);
            crate::crypto::extend_bytes(out, b.as_slice());
        },
        TLVValue::U32(x) => {
            let b = vstd::bytes::u32_to_le_bytes(*x);
            crate::crypto::extend_bytes(out, b.as_slice());
        },
        TLVValue::U64(x) => {
            let b = vstd::bytes::u64_to_le_bytes(*x);
            crate::crypto::extend_bytes(out, b.as_slice());
        },
        TLVValue::Utf8(s) => {
            out.push(s.len() as u8);
            crate::crypto::extend_bytes(out, s.as_slice());
        },
        TLVValue::Str8(s) => {
            out.push(s.len() as u8);
            crate::crypto::extend_bytes(out, s.as_slice());
        },
        TLVValue::Str16(s) => {
            let b = vstd::bytes::u16_to_le_bytes(s.len() as u16);
            crate::crypto::extend_bytes(out, b.as_slice());
            crate::crypto::extend_bytes(out, s.as_slice());
        },
        TLVValue::Struct(cs) => {
            encode_children(cs, out);
            out.push(END_CONTAINER);
        },
        TLVValue::Array(cs) => {
            encode_children(cs, out);
            out.push(END_CONTAINER);
        },
        TLVValue::List(cs) => {
            encode_children(cs, out);
            out.push(END_CONTAINER);
        },
    }
    proof {
        assert(out@ =~= head + spec_encode_payload(e@.value));
        assert(out@ =~= old(out)@ + spec_encode_node(e@));
    }
}

/// Appends the encodings of all elements of `cs` to `out`.
fn encode_children(cs: &Vec<TLVElement>, out: &mut Vec<u8>)
    requires
        wf_nodes(elems_view(cs@)),
    ensures
        final(out)@ == old(out)@ + spec_encode_children(elems_view(cs@)),
    decreases *cs,
{
    let n = cs.len();
    let mut i: usize = 0;
    proof {
        lemma_elems_view(cs@);
        lemma_wf_nodes(elems_view(cs@));
        assert(elems_view(cs@).take(0) =~= elems_view(cs@.take(0)));
        assert(spec_encode_children(elems_view(cs@).take(0)) =~= Seq::<u8>::empty());
        assert(out@ =~= old(out)@ + spec_encode_children(elems_view(cs@).take(0)));
    }
    while i < n
        invariant
            i <= n,
            n == cs@.len(),
            elems_view(cs@).len() == cs@.len(),
            wf_nodes(elems_view(cs@)),
            forall|j: int| 0 <= j < cs@.len() ==> elems_view(cs@)[j] == node_view(cs@[j]),
            forall|j: int| 0 <= j < cs@.len() ==> wf_tree(elems_view(cs@)[j].value),
            out@ == old(out)@ + spec_encode_children(elems_view(cs@).take(i as int)),
        decreases n - i,
    {
        proof {
            assert(elems_view(cs@)[i as int] == node_view(cs@[i as int]));
            assert(wf_tree(node_view(cs@[i as int]).value));
        }
        encode_element(&cs[i], out);
        proof {
            assert forall|k: int| 0 <= k < i + 1 implies elems_view(cs@).take(i + 1)[k]
                == elems_view(cs@).take(i as int).push(node_view(cs@[i as int]))[k] by {
                assert(elems_view(cs@)[k] == node_view(cs@[k]));
            }
            assert(elems_view(cs@).take(i + 1) =~= elems_view(cs@).take(i as int).push(
                node_view(cs@[i as int]),
            ));
            lemma_encode_children_snoc(elems_view(cs@).take(i as int), node_view(cs@[i as int]));
        }
        i = i + 1;
    }
    proof {
        assert(elems_view(cs@).take(n as int) =~= elems_view(cs@));
    }
}

/// Decodes one element from the head of `b`; returns it and the rest.
pub open spec fn spec_decode_node(b: Seq<u8>) -> Option<(TlvNode, Seq<u8>)>
    decreases b.len(), 1int,
{
    if b.len() == 0 {
        None
    } else {
        let ctl = b[0];
        let tctl = ctl / 32;
        let code = ctl % 32;
        if tctl == 0 {
            spec_decode_body(TagType::Anonymous, code, b.drop_first())
        } else if tctl == 1 {
            if b.len() < 2 {
                None
            } else {
                spec_decode_body(TagType::Context(b[1]), code, b.skip(2))
            }
        } else {
            None
        }
    }
}

/// Decodes the value bytes of an element whose control byte gave
/// `tag` and element-type `code`.
pub open spec fn spec_decode_body(tag: TagType, code: u8, b: Seq<u8>) -> Option<
    (TlvNode, Seq<u8>),
>
    decreases b.len(), 3int,
{
    if code == 0x08 {
        Some((TlvNode { tag, value: TlvTree::Bool(false) }, b))
    } else if code == 0x09 {
        Some((TlvNode { tag, value: TlvTree::Bool(true) }, b))
    } else if code == 0x00 {
        if b.len() < 1 {
            None
        } else {
            Some((TlvNode { tag, value: TlvTree::I8(b[0] as i8) }, b.drop_first()))
        }
    } else if code == 0x03 {
        if b.len() < 8 {
            None
        } else {
            Some(
                (
                    TlvNode { tag, value: TlvTree::I64(spec_u64_from_le_bytes(b.take(8)) as i64) },
                    b.skip(8),
                ),
            )
        }
    } else if code == 0x04 {
        if b.len() < 1 {
            None
        } else {
            Some((TlvNode { tag, value: TlvTree::U8(b[0]) }, b.drop_first()))
        }
    } else if code == 0x05 {
        if b.len() < 2 {
            None
        } else {
            Some((TlvNode { tag, value: TlvTree::U16(spec_u16_from_le_bytes(b.take(2))) }, b.skip(2)))
        }
    } else if code == 0x06 {
        if b.len() < 4 {
            None
        } else {
            Some((TlvNode { tag, value: TlvTree::U32(spec_u32_from_le_bytes(b.take(4))) }, b.skip(4)))
        }
    } else if code == 0x07 {
        if b.len() < 8 {
            None
        } else {
            Some((TlvNode { tag, value: TlvTree::U64(spec_u64_from_le_bytes(b.take(8))) }, b.skip(8)))
        }
    } else if code == 0x0c || code == 0x10 {
        if b.len() < 1 {
            None
        } else {
            let l = b[0] as int;
            if b.len() < 1 + l {
                None
            } else {
                let s = b.subrange(1, 1 + l);
                let v = if code == 0x0c {
                    TlvTree::Utf8(s)
                } else {
                    TlvTree::Str8(s)
                };
                Some((TlvNode { tag, value: v }, b.skip(1 + l)))
            }
        }
    } else if code == 0x11 {
        if b.len() < 2 {
            None
        } else {
            let l = spec_u16_from_le_bytes(b.take(2)) as int;
            if b.len() < 2 + l {
                None
            } else {
                Some((TlvNode { tag, value: TlvTree::Str16(b.subrange(2, 2 + l)) }, b.skip(2 + l)))
            }
        }
    } else if code == 0x15 || code == 0x16 || code == 0x17 {
        match spec_decode_children(b) {
            Some((cs, rest)) => {
                let v = if code == 0x15 {
                    TlvTree::Struct(cs)
                } else if code == 0x16 {
                    TlvTree::Array(cs)
                } else {
                    TlvTree::List(cs)
                };
                Some((TlvNode { tag, value: v }, rest))
            },
            None => None,
        }
    } else {
        None
    }
}

/// Decodes child elements up to and over an end-of-container mark.
pub open spec fn spec_decode_children(b: Seq<u8>) -> Option<(Seq<TlvNode>, Seq<u8>)>
    decreases b.len(), 2int,
{
    if b.len() == 0 {
        None
    } else if b[0] == END_CONTAINER {
        Some((Seq::empty(), b.drop_first()))
    } else {
        match spec_decode_node(b) {
            Some((n, rest)) => {
                if rest.len() < b.len() {
                    match spec_decode_children(rest) {
                        Some((cs, rest2)) => Some((seq![n] + cs, rest2)),
                        None => None,
                    }
                } else {
                    None
                }
            },
            None => None,
        }
    }
}

/// An encoded element is never empty and never starts with the end mark.
pub proof fn lemma_encode_node_head(n: TlvNode)
    ensures
        spec_encode_node(n).len() >= 1,
        spec_encode_node(n)[0] != END_CONTAINER,
{
}

/// Decoding reverses encoding: an encoded well-formed element followed by
/// any suffix decodes to that element, with the suffix left over.
pub proof fn lemma_decode_encode_node(n: TlvNode, rest: Seq<u8>)
    requires
        wf_tree(n.value),
    ensures
        spec_decode_node(spec_encode_node(n) + rest) == Some((n, rest)),
    decreases n.value, 1int,
{
    let b = spec_encode_node(n) + rest;
    let ctl = (spec_tag_ctl(n.tag) + spec_elem_code(n.value)) as u8;
    assert(b[0] == ctl);
    let body = spec_encode_payload(n.value) + rest;
    match n.tag {
        TagType::Anonymous => {
            assert(ctl / 32 == 0 && ctl % 32 == spec_elem_code(n.value));
            assert(b.drop_first() =~= body);
        },
        TagType::Context(c) => {
            assert(ctl / 32 == 1 && ctl % 32 == spec_elem_code(n.value));
            assert(b[1] == c);
            assert(b.skip(2) =~= body);
        },
    }
    lemma_decode_encode_body(n.tag, n.value, rest);
}

/// Decoding reverses encoding for the value bytes of one element.
pub proof fn lemma_decode_encode_body(tag: TagType, t: TlvTree, rest: Seq<u8>)
    requires
        wf_tree(t),
    ensures
        spec_decode_body(tag, spec_elem_code(t), spec_encode_payload(t) + rest) == Some(
            (TlvNode { tag, value: t }, rest),
        ),
    decreases t, 0int,
{
    let b = spec_encode_payload(t) + rest;
    match t {
        TlvTree::Bool(v) => {
            assert(b =~= rest);
        },
        TlvTree::I8(x) => {
            assert(b[0] == x as u8);
            assert((x as u8) as i8 == x) by (bit_vector);
            assert(b.drop_first() =~= rest);
        },
        TlvTree::I64(x) => {
            vstd::bytes::lemma_auto_spec_u64_to_from_le_bytes();
            assert(b.take(8) =~= spec_u64_to_le_bytes(x as u64));
            assert((x as u64) as i64 == x) by (bit_vector);
            assert(b.skip(8) =~= rest);
        },
        TlvTree::U8(x) => {
            assert(b[0] == x);
            assert(b.drop_first() =~= rest);
        },
        TlvTree::U16(x) => {
            vstd::bytes::lemma_auto_spec_u16_to_from_le_bytes();
            assert(b.take(2) =~= spec_u16_to_le_bytes(x));
            assert(b.skip(2) =~= rest);
        },
        TlvTree::U32(x) => {
            vstd::bytes::lemma_auto_spec_u32_to_from_le_bytes();
            assert(b.take(4) =~= spec_u32_to_le_bytes(x));
            assert(b.skip(4) =~= rest);
        },
        TlvTree::U64(x) => {
            vstd::bytes::lemma_auto_spec_u64_to_from_le_bytes();
            assert(b.take(8) =~= spec_u64_to_le_bytes(x));
            assert(b.skip(8) =~= rest);
        },
        TlvTree::Utf8(s) => {
            assert(b[0] == s.len() as u8);
            assert(b.subrange(1, 1 + s.len() as int) =~= s);
            assert(b.skip(1 + s.len() as int) =~= rest);
        },
        TlvTree::Str8(s) => {
            assert(b[0] == s.len() as u8);
            assert(b.subrange(1, 1 + s.len() as int) =~= s);
            assert(b.skip(1 + s.len() as int) =~= rest);
        },
        TlvTree::Str16(s) => {
            vstd::bytes::lemma_auto_spec_u16_to_from_le_bytes();
            assert(b.take(2) =~= spec_u16_to_le_bytes(s.len() as u16));
            assert(spec_u16_from_le_bytes(b.take(2)) == s.len() as u16);
            assert(b.subrange(2, 2 + s.len() as int) =~= s);
            assert(b.skip(2 + s.len() as int) =~= rest);
        },
        TlvTree::Struct(cs) => {
            assert(b =~= spec_encode_children(cs) + seq![END_CONTAINER] + rest);
            lemma_decode_encode_children(cs, rest);
        },
        TlvTree::Array(cs) => {
            assert(b =~= spec_encode_children(cs) + seq![END_CONTAINER] + rest);
            lemma_decode_encode_children(cs, rest);
        },
        TlvTree::List(cs) => {
            assert(b =~= spec_encode_children(cs) + seq![END_CONTAINER] + rest);
            lemma_decode_encode_children(cs, rest);
        },
    }
}

/// Decoding reverses encoding for a run of children closed by the end mark.
pub proof fn lemma_decode_encode_children(cs: Seq<TlvNode>, rest: Seq<u8>)
    requires
        wf_nodes(cs),
    ensures
        spec_decode_children(spec_encode_children(cs) + seq![END_CONTAINER] + rest) == Some(
            (cs, rest),
        ),
    decreases cs, 2int,
{
    let b = spec_encode_children(cs) + seq![END_CONTAINER] + rest;
    if cs.len() == 0 {
        assert(b[0] == END_CONTAINER);
        assert(b.drop_first() =~= rest);
        assert(spec_decode_children(b) == Some((Seq::<TlvNode>::empty(), rest)));
        assert(Seq::<TlvNode>::empty() =~= cs);
    } else {
        let n0 = cs[0];
        let tail = spec_encode_children(cs.drop_first()) + seq![END_CONTAINER] + rest;
        assert(b =~= spec_encode_node(n0) + tail);
        lemma_encode_node_head(n0);
        assert(b[0] == spec_encode_node(n0)[0]);
        assert(b[0] != END_CONTAINER);
        lemma_decode_encode_node(n0, tail);
        assert(spec_decode_node(b) == Some((n0, tail)));
        assert(tail.len() < b.len());
        lemma_decode_encode_children(cs.drop_first(), rest);
        assert(spec_decode_children(b) == Some((seq![n0] + cs.drop_first(), rest)));
        assert(seq![n0] + cs.drop_first() =~= cs);
    }
}

/// The round-trip law: encoding a well-formed element and decoding the
/// result yields the element back, consuming the whole buffer.
pub proof fn lemma_tlv_round_trip(n: TlvNode)
    requires
        wf_tree(n.value),
    ensures
        spec_decode_node(spec_encode_node(n)) == Some((n, Seq::<u8>::empty())),
{
    lemma_decode_encode_node(n, Seq::<u8>::empty());
    assert(spec_encode_node(n) + Seq::<u8>::empty() =~= spec_encode_node(n));
}

/// Decodes the element starting at `pos`; returns it and the position of
/// the first byte after it. Any malformed head is an error.
pub fn decode_element(buf: &[u8], pos: usize) -> (r: Result<(TLVElement, usize), Error>)
    requires
        pos <= buf@.len(),
    ensures
        match r {
            Ok((e, p2)) => {
                &&& spec_decode_node(buf@.skip(pos as int)) == Some((e@, buf@.skip(p2 as int)))
                &&& pos < p2 <= buf@.len()
                &&& wf_tree(e@.value)
            },
            Err(er) => {
                &&& spec_decode_node(buf@.skip(pos as int)) is None
                &&& er == Error::InvalidData
            },
        },
    decreases buf@.len() - pos, 1int,
{
    let blen = buf.len();
    let ghost b = buf@.skip(pos as int);
    if pos >= blen {
        return Err(Error::InvalidData);
    }
    let ctl = buf[pos];
    proof {
        assert(b[0] == ctl);
    }
    let tctl = ctl / 32;
    let code = ctl % 32;
    if tctl == 0 {
        proof {
            assert(b.drop_first() =~= buf@.skip(pos + 1));
        }
        decode_body(buf, pos + 1, TagType::Anonymous, code)
    } else if tctl == 1 {
        if pos + 1 >= blen {
            return Err(Error::InvalidData);
        }
        let c = buf[pos + 1];
        proof {
            assert(b[1] == c);
            assert(b.skip(2) =~= buf@.skip(pos + 2));
        }
        decode_body(buf, pos + 2, TagType::Context(c), code)
    } else {
        Err(Error::InvalidData)
    }
}

/// Decodes the value bytes at `pos` for an element with the given tag and
/// element-type code.
fn decode_body(buf: &[u8], pos: usize, tag: TagType, code: u8) -> (r: Result<
    (TLVElement, usize),
    Error,
>)
    requires
        pos <= buf@.len(),
    ensures
        match r {
            Ok((e, p2)) => {
                &&& spec_decode_body(tag, code, buf@.skip(pos as int)) == Some(
                    (e@, buf@.skip(p2 as int)),
                )
                &&& pos <= p2 <= buf@.len()
                &&& e@.tag == tag
                &&& wf_tree(e@.value)
            },
            Err(er) => {
                &&& spec_decode_body(tag, code, buf@.skip(pos as int)) is None
                &&& er == Error::InvalidData
            },
        },
    decreases buf@.len() - pos, 3int,
{
    let blen = buf.len();
    let ghost b = buf@.skip(pos as int);
    if code == 0x08 {
        Ok((TLVElement { tag, value: TLVValue::Bool(false) }, pos))
    } else if code == 0x09 {
        Ok((TLVElement { tag, value: TLVValue::Bool(true) }, pos))
    } else if code == 0x00 {
        if pos >= blen {
            return Err(Error::InvalidData);
        }
        let x = buf[pos];
        proof {
            assert(b[0] == x);
            assert(b.drop_first() =~= buf@.skip(pos + 1));
        }
        Ok((TLVElement { tag, value: TLVValue::I8(#[verifier::truncate] (x as i8)) }, pos + 1))
    } else if code == 0x03 {
        if blen - pos < 8 {
            return Err(Error::InvalidData);
        }
        let s = slice_subrange(buf, pos, pos + 8);
        proof {
            assert(s@ =~= b.take(8));
            assert(b.skip(8) =~= buf@.skip(pos + 8));
        }
        let x = vstd::bytes::u64_from_le_bytes(s);
        Ok((TLVElement { tag, value: TLVValue::I64(#[verifier::truncate] (x as i64)) }, pos + 8))
    } else if code == 0x04 {
        if pos >= blen {
            return Err(Error::InvalidData);
        }
        let x = buf[pos];
        proof {
            assert(b[0] == x);
            assert(b.drop_first() =~= buf@.skip(pos + 1));
        }
        Ok((TLVElement { tag, value: TLVValue::U8(x) }, pos + 1))
    } else if code == 0x05 {
        if blen - pos < 2 {
            return Err(Error::InvalidData);
        }
        let s = slice_subrange(buf, pos, pos + 2);
        proof {
            assert(s@ =~= b.take(2));
            assert(b.skip(2) =~= buf@.skip(pos + 2));
        }
        let x = vstd::bytes::u16_from_le_bytes(s);
        Ok((TLVElement { tag, value: TLVValue::U16(x) }, pos + 2))
    } else if code == 0x06 {
        if blen - pos < 4 {
            return Err(Error::InvalidData);
        }
        let s = slice_subrange(buf, pos, pos + 4);
        proof {
            assert(s@ =~= b.take(4));
            assert(b.skip(4) =~= buf@.skip(pos + 4));
        }
        let x = vstd::bytes::u32_from_le_bytes(s);
        Ok((TLVElement { tag, value: TLVValue::U32(x) }, pos + 4))
    } else if code == 0x07 {
        if blen - pos < 8 {
            return Err(Error::InvalidData);
        }
        let s = slice_subrange(buf, pos, pos + 8);
        proof {
            assert(s@ =~= b.take(8));
            assert(b.skip(8) =~= buf@.skip(pos + 8));
        }
        let x = vstd::bytes::u64_from_le_bytes(s);
        Ok((TLVElement { tag, value: TLVValue::U64(x) }, pos + 8))
    } else if code == 0x0c || code == 0x10 {
        if pos >= blen {
            return Err(Error::InvalidData);
        }
        let l = buf[pos] as usize;
        proof {
            assert(b[0] == buf@[pos as int]);
        }
        if blen - pos - 1 < l {
            return Err(Error::InvalidData);
        }
        let s = slice_to_vec(slice_subrange(buf, pos + 1, pos + 1 + l));
        proof {
            assert(s@ =~= b.subrange(1, 1 + l as int));
            assert(b.skip(1 + l as int) =~= buf@.skip(pos + 1 + l));
        }
        let v = if code == 0x0c {
            TLVValue::Utf8(s)
        } else {
            TLVValue::Str8(s)
        };
        Ok((TLVElement { tag, value: v }, pos + 1 + l))
    } else if code == 0x11 {
        if blen - pos < 2 {
            return Err(Error::InvalidData);
        }
        let ls = slice_subrange(buf, pos, pos + 2);
        proof {
            assert(ls@ =~= b.take(2));
        }
        let l = vstd::bytes::u16_from_le_bytes(ls) as usize;
        if blen - pos - 2 < l {
            return Err(Error::InvalidData);
        }
        let s = slice_to_vec(slice_subrange(buf, pos + 2, pos + 2 + l));
        proof {
            assert(s@ =~= b.subrange(2, 2 + l as int));
            assert(b.skip(2 + l as int) =~= buf@.skip(pos + 2 + l));
        }
        Ok((TLVElement { tag, value: TLVValue::Str16(s) }, pos + 2 + l))
    } else if code == 0x15 || code == 0x16 || code == 0x17 {
        match decode_children(buf, pos) {
            Ok((cs, p2)) => {
                let v = if code == 0x15 {
                    TLVValue::Struct(cs)
                } else if code == 0x16 {
                    TLVValue::Array(cs)
                } else {
                    TLVValue::List(cs)
                };
                Ok((TLVElement { tag, value: v }, p2))
            },
            Err(e) => Err(e),
        }
    } else {
        Err(Error::InvalidData)
    }
}

/// Decodes child elements up to and over an end-of-container mark.
fn decode_children(buf: &[u8], pos: usize) -> (r: Result<(Vec<TLVElement>, usize), Error>)
    requires
        pos <= buf@.len(),
    ensures
        match r {
            Ok((cs, p2)) => {
                &&& spec_decode_children(buf@.skip(pos as int)) == Some(
                    (elems_view(cs@), buf@.skip(p2 as int)),
                )
                &&& pos < p2 <= buf@.len()
                &&& wf_nodes(elems_view(cs@))
            },
            Err(er) => {
                &&& spec_decode_children(buf@.skip(pos as int)) is None
                &&& er == Error::InvalidData
            },
        },
    decreases buf@.len() - pos, 2int,
{
    let blen = buf.len();
    let ghost b = buf@.skip(pos as int);
    if pos >= blen {
        return Err(Error::InvalidData);
    }
    proof {
        assert(b[0] == buf@[pos as int]);
    }
    if buf[pos] == END_CONTAINER {
        proof {
            assert(b.drop_first() =~= buf@.skip(pos + 1));
        }
        return Ok((Vec::new(), pos + 1));
    }
    match decode_element(buf, pos) {
        Ok((n, rest_pos)) => {
            proof {
                assert(buf@.skip(rest_pos as int).len() < b.len());
            }
            match decode_children(buf, rest_pos) {
                Ok((cs, p2)) => {
                    let ghost tail = cs@;
                    let mut out = cs;
                    out.insert(0, n);
                    proof {
                        assert(out@[0] == n);
                        assert(out@.drop_first() =~= tail);
                        assert(elems_view(out@) == seq![node_view(n)] + elems_view(tail));
                        assert(elems_view(out@) =~= seq![n@] + elems_view(tail));
                        assert(elems_view(out@)[0] == n@);
                        assert(elems_view(out@).drop_first() =~= elems_view(tail));
                        assert(wf_nodes(elems_view(out@)));
                    }
                    Ok((out, p2))
                },
                Err(e) => Err(e),
            }
        },
        Err(e) => Err(e),
    }
}

/// The children of a container tree, if it is one.
pub open spec fn spec_children(t: TlvTree) -> Option<Seq<TlvNode>> {
    match t {
        TlvTree::Struct(cs) => Some(cs),
        TlvTree::Array(cs) => Some(cs),
        TlvTree::List(cs) => Some(cs),
        _ => None,
    }
}

/// The numeric value of an unsigned tree of any width.
pub open spec fn spec_uint_of(t: TlvTree) -> Option<u64> {
    match t {
        TlvTree::U8(x) => Some(x as u64),
        TlvTree::U16(x) => Some(x as u64),
        TlvTree::U32(x) => Some(x as u64),
        TlvTree::U64(x) => Some(x),
        _ => None,
    }
}

/// The first child carrying context tag `c`.
pub open spec fn spec_find_tag(cs: Seq<TlvNode>, c: u8) -> Option<TlvNode>
    decreases cs,
{
    if cs.len() == 0 {
        None
    } else if cs[0].tag == TagType::Context(c) {
        Some(cs[0])
    } else {
        spec_find_tag(cs.drop_first(), c)
    }
}

/// Skipping a matchless prefix does not change the first match.
proof fn lemma_find_tag_skip(cs: Seq<TlvNode>, c: u8, i: int)
    requires
        0 <= i <= cs.len(),
        forall|j: int| 0 <= j < i ==> cs[j].tag != TagType::Context(c),
    ensures
        spec_find_tag(cs, c) == spec_find_tag(cs.skip(i), c),
    decreases i,
{
    if i == 0 {
        assert(cs.skip(0) =~= cs);
    } else {
        assert(cs[0].tag != TagType::Context(c));
        assert forall|j: int| 0 <= j < i - 1 implies cs.drop_first()[j].tag != TagType::Context(
            c,
        ) by {
            assert(cs.drop_first()[j] == cs[j + 1]);
        }
        lemma_find_tag_skip(cs.drop_first(), c, i - 1);
        assert(cs.drop_first().skip(i - 1) =~= cs.skip(i));
    }
}

impl TLVElement {
    /// This element's children, when it is a struct, array or list.
    pub fn children(&self) -> (r: Result<&Vec<TLVElement>, Error>)
        ensures
            match r {
                Ok(cs) => spec_children(self@.value) == Some(elems_view(cs@)),
                Err(e) => spec_children(self@.value) is None && e == Error::InvalidData,
            },
    {
        match &self.value {
            TLVValue::Struct(cs) => Ok(cs),
            TLVValue::Array(cs) => Ok(cs),
            TLVValue::List(cs) => Ok(cs),
            _ => Err(Error::InvalidData),
        }
    }

    /// Requires this element to be a struct.
    pub fn confirm_struct(&self) -> (r: Result<&TLVElement, Error>)
        ensures
            match r {
                Ok(e) => *e == *self && self@.value is Struct,
                Err(e) => !(self@.value is Struct) && e == Error::InvalidData,
            },
    {
        match &self.value {
            TLVValue::Struct(_) => Ok(self),
            _ => Err(Error::InvalidData),
        }
    }

    /// Requires this element to be an array.
    pub fn confirm_array(&self) -> (r: Result<&TLVElement, Error>)
        ensures
            match r {
                Ok(e) => *e == *self && self@.value is Array,
                Err(e) => !(self@.value is Array) && e == Error::InvalidData,
            },
    {
        match &self.value {
            TLVValue::Array(_) => Ok(self),
            _ => Err(Error::InvalidData),
        }
    }

    /// Requires this element to be a list.
    pub fn confirm_list(&self) -> (r: Result<&TLVElement, Error>)
        ensures
            match r {
                Ok(e) => *e == *self && self@.value is List,
                Err(e) => !(self@.value is List) && e == Error::InvalidData,
            },
    {
        match &self.value {
            TLVValue::List(_) => Ok(self),
            _ => Err(Error::InvalidData),
        }
    }

    /// Finds the first child with context tag `c`.
    pub fn find_tag(&self, c: u8) -> (r: Result<&TLVElement, Error>)
        ensures
            match r {
                Ok(e) => {
                    &&& spec_children(self@.value) matches Some(cs)
                    &&& spec_find_tag(cs, c) == Some(e@)
                },
                Err(er) => {
                    &&& match spec_children(self@.value) {
                        Some(cs) => spec_find_tag(cs, c) is None,
                        None => true,
                    }
                    &&& (er == Error::InvalidData || er == Error::NotFound)
                },
            },
    {
        let cs = self.children()?;
        let n = cs.len();
        let ghost nodes = elems_view(cs@);
        proof {
            lemma_elems_view(cs@);
        }
        let mut i: usize = 0;
        while i < n
            invariant
                i <= n,
                n == cs@.len(),
                nodes == elems_view(cs@),
                spec_children(self@.value) == Some(nodes),
                nodes.len() == n,
                forall|j: int| 0 <= j < n ==> nodes[j] == node_view(cs@[j]),
                forall|j: int| 0 <= j < i ==> nodes[j].tag != TagType::Context(c),
            decreases n - i,
        {
            match &cs[i].tag {
                TagType::Context(tc) => {
                    if *tc == c {
                        proof {
                            lemma_find_tag_skip(nodes, c, i as int);
                            assert(nodes.skip(i as int)[0] == nodes[i as int]);
                            assert(nodes[i as int].tag == TagType::Context(c));
                            assert(spec_find_tag(nodes.skip(i as int), c) == Some(
                                nodes[i as int],
                            ));
                        }
                        return Ok(&cs[i]);
                    }
                },
                _ => {},
            }
            i = i + 1;
        }
        proof {
            lemma_find_tag_skip(nodes, c, n as int);
            assert(nodes.skip(n as int) =~= Seq::<TlvNode>::empty());
        }
        Err(Error::NotFound)
    }

    /// The value of a one-byte signed element.
    pub fn get_i8(&self) -> (r: Result<i8, Error>)
        ensures
            match r {
                Ok(x) => self@.value == TlvTree::I8(x),
                Err(e) => !(self@.value is I8) && e == Error::InvalidData,
            },
    {
        match &self.value {
            TLVValue::I8(x) => Ok(*x),
            _ => Err(Error::InvalidData),
        }
    }

    /// The value of an eight-byte signed element.
    pub fn get_i64(&self) -> (r: Result<i64, Error>)
        ensures
            match r {
                Ok(x) => self@.value == TlvTree::I64(x),
                Err(e) => !(self@.value is I64) && e == Error::InvalidData,
            },
    {
        match &self.value {
            TLVValue::I64(x) => Ok(*x),
            _ => Err(Error::InvalidData),
        }
    }

    /// The value of a one-byte unsigned element.
    pub fn get_u8(&self) -> (r: Result<u8, Error>)
        ensures
            match r {
                Ok(x) => self@.value == TlvTree::U8(x),
                Err(e) => !(self@.value is U8) && e == Error::InvalidData,
            },
    {
        match &self.value {
            TLVValue::U8(x) => Ok(*x),
            _ => Err(Error::InvalidData),
        }
    }

    /// The value of a two-byte unsigned element.
    pub fn get_u16(&self) -> (r: Result<u16, Error>)
        ensures
            match r {
                Ok(x) => self@.value == TlvTree::U16(x),
                Err(e) => !(self@.value is U16) && e == Error::InvalidData,
            },
    {
        match &self.value {
            TLVValue::U16(x) => Ok(*x),
            _ => Err(Error::InvalidData),
        }
    }

    /// The value of a four-byte unsigned element.
    pub fn get_u32(&self) -> (r: Result<u32, Error>)
        ensures
            match r {
                Ok(x) => self@.value == TlvTree::U32(x),
                Err(e) => !(self@.value is U32) && e == Error::InvalidData,
            },
    {
        match &self.value {
            TLVValue::U32(x) => Ok(*x),
            _ => Err(Error::InvalidData),
        }
    }

    /// The value of an eight-byte unsigned element.
    pub fn get_u64(&self) -> (r: Result<u64, Error>)
        ensures
            match r {
                Ok(x) => self@.value == TlvTree::U64(x),
                Err(e) => !(self@.value is U64) && e == Error::InvalidData,
            },
    {
        match &self.value {
            TLVValue::U64(x) => Ok(*x),
            _ => Err(Error::InvalidData),
        }
    }

    /// The value of an unsigned element of any width, widened.
    pub fn get_uint(&self) -> (r: Result<u64, Error>)
        ensures
            match r {
                Ok(x) => spec_uint_of(self@.value) == Some(x),
                Err(e) => spec_uint_of(self@.value) is None && e == Error::InvalidData,
            },
    {
        match &self.value {
            TLVValue::U8(x) => Ok(*x as u64),
            TLVValue::U16(x) => Ok(*x as u64),
            TLVValue::U32(x) => Ok(*x as u64),
            TLVValue::U64(x) => Ok(*x),
            _ => Err(Error::InvalidData),
        }
    }

    /// The value of a boolean element.
    pub fn get_bool(&self) -> (r: Result<bool, Error>)
        ensures
            match r {
                Ok(x) => self@.value == TlvTree::Bool(x),
                Err(e) => !(self@.value is Bool) && e == Error::InvalidData,
            },
    {
        match &self.value {
            TLVValue::Bool(x) => Ok(*x),
            _ => Err(Error::InvalidData),
        }
    }

    /// The bytes of a byte-string element.
    pub fn get_slice(&self) -> (r: Result<&[u8], Error>)
        ensures
            match r {
                Ok(s) => self@.value == TlvTree::Str8(s@) || self@.value == TlvTree::Str16(s@),
                Err(e) => {
                    &&& !(self@.value is Str8)
                    &&& !(self@.value is Str16)
                    &&& e == Error::InvalidData
                },
            },
    {
        match &self.value {
            TLVValue::Str8(s) => Ok(s.as_slice()),
            TLVValue::Str16(s) => Ok(s.as_slice()),
            _ => Err(Error::InvalidData),
        }
    }
}

/// Decodes the buffer's single root element and requires it to be a struct.
pub fn get_root_node_struct(buf: &[u8]) -> (r: Result<TLVElement, Error>)
    ensures
        match r {
            Ok(e) => {
                &&& spec_decode_node(buf@) matches Some(p) && p.0 == e@
                &&& e@.value is Struct
                &&& wf_tree(e@.value)
            },
            Err(er) => {
                &&& match spec_decode_node(buf@) {
                    Some(p) => !(p.0.value is Struct),
                    None => true,
                }
                &&& er == Error::InvalidData
            },
        },
{
    proof {
        assert(buf@.skip(0) =~= buf@);
    }
    match decode_element(buf, 0) {
        Ok((e, _)) => {
            match &e.value {
                TLVValue::Struct(_) => Ok(e),
                _ => Err(Error::InvalidData),
            }
        },
        Err(er) => Err(er),
    }
}

/// The encoding of `e` as a fresh buffer.
pub fn encode(e: &TLVElement) -> (r: Vec<u8>)
    requires
        wf_tree(e@.value),
    ensures
        r@ == spec_encode_node(e@),
{
    let mut out: Vec<u8> = Vec::new();
    encode_element(e, &mut out);
    proof {
        assert(out@ =~= spec_encode_node(e@));
    }
    out
}

} // verus!
