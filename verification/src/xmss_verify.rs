//! Verification of signatures and of batches of them, and the commitment
//! that binds a batch to its statement.

use vstd::prelude::*;
use crate::bytes::{
    be32, le32, le64, lemma_le32_injective, lemma_le64_injective, push_be32, push_le32, push_le64,
};
use crate::hash::{
    node_hash, sha256, sha256_bytes, truncated_sha256, Node, Parameter, NODE_BYTES,
    PARAMETER_BYTES,
};
use crate::tsl::{digest_index_of, encode_vertex, valid_layer_params, vertex_of_index};
use crate::types::{PublicKey, Signature, Statement, TslParams, VerificationBatch};

verus! {

/// The byte strings that a list of byte vectors holds.
pub open spec fn byte_rows(src: Seq<Vec<u8>>) -> Seq<Seq<u8>> {
    Seq::new(src.len(), |i: int| src[i]@)
}

/// The byte strings that a list of nodes holds.
pub open spec fn node_rows(nodes: Seq<Node>) -> Seq<Seq<u8>> {
    Seq::new(nodes.len(), |i: int| nodes[i]@)
}

/// Every byte string of the list has the given width.
pub open spec fn all_width(rows: Seq<Seq<u8>>, width: nat) -> bool {
    forall|i: int| 0 <= i < rows.len() ==> (#[trigger] rows[i]).len() == width
}

/// The value `steps` hashes further along a chain that starts at `start`.
pub open spec fn chain_walk(start: Seq<u8>, steps: nat) -> Seq<u8>
    decreases steps,
{
    if steps == 0 {
        start
    } else {
        node_hash(chain_walk(start, (steps - 1) as nat))
    }
}

/// How far a chain end at step `step` is from the top of its chain, `w - 1`.
pub open spec fn chain_length(w: nat, step: nat) -> nat {
    if step + 1 < w { (w - 1 - step) as nat } else { 0 }
}

/// The tops of the first `n` chains, one after the other.
pub open spec fn chain_tops(w: nat, steps: Seq<u16>, ends: Seq<Seq<u8>>, n: nat) -> Seq<u8>
    decreases n,
{
    if n == 0 {
        Seq::empty()
    } else {
        chain_tops(w, steps, ends, (n - 1) as nat) + chain_walk(
            ends[n - 1],
            chain_length(w, steps[n - 1] as nat),
        )
    }
}

/// The leaf that the chain ends of a signature stand for: the hash of the
/// tops of all chains.
pub open spec fn chain_leaf(w: nat, steps: Seq<u16>, ends: Seq<Seq<u8>>) -> Seq<u8> {
    node_hash(chain_tops(w, steps, ends, ends.len()))
}

/// The index of the ancestor of leaf `leaf_index` that stands `h` levels above it.
pub open spec fn ancestor_index(leaf_index: u64, h: nat) -> u64 {
    if h < 64 { leaf_index >> (h as u64) } else { 0 }
}

/// `node` and its sibling at height `h`, the left one first: `node` is the
/// left one where its index at that height is even.
pub open spec fn merkle_children(leaf_index: u64, h: nat, node: Seq<u8>, sibling: Seq<u8>) -> Seq<
    u8,
> {
    if ancestor_index(leaf_index, h) & 1 == 0 {
        node + sibling
    } else {
        sibling + node
    }
}

/// What is hashed into the parent of `node` and `sibling` at height `h`: a
/// tag, the key's parameter, the height, the parent's index and the two
/// children, left one first.
pub open spec fn merkle_preimage(
    parameter: Seq<u8>,
    leaf_index: u64,
    h: nat,
    node: Seq<u8>,
    sibling: Seq<u8>,
) -> Seq<u8> {
    seq![1u8] + parameter + be32(h) + be32(ancestor_index(leaf_index, h + 1) as nat)
        + merkle_children(leaf_index, h, node, sibling)
}

/// The parent of `node` and `sibling` at height `h`.
pub open spec fn merkle_parent(
    parameter: Seq<u8>,
    leaf_index: u64,
    h: nat,
    node: Seq<u8>,
    sibling: Seq<u8>,
) -> Seq<u8> {
    node_hash(merkle_preimage(parameter, leaf_index, h, node, sibling))
}

/// What is hashed into a parent tells positions and keys apart: where two
/// parents under parameters of one width take the same bytes, they have the
/// same parameter, the same height and parent index as far as 32 bits show
/// them, and the same children in the same order.
pub proof fn lemma_preimage_separates(
    p1: Seq<u8>,
    i1: u64,
    h1: nat,
    n1: Seq<u8>,
    s1: Seq<u8>,
    p2: Seq<u8>,
    i2: u64,
    h2: nat,
    n2: Seq<u8>,
    s2: Seq<u8>,
)
    requires
        p1.len() == p2.len(),
        merkle_preimage(p1, i1, h1, n1, s1) == merkle_preimage(p2, i2, h2, n2, s2),
    ensures
        p1 == p2,
        be32(h1) == be32(h2),
        be32(ancestor_index(i1, h1 + 1) as nat) == be32(ancestor_index(i2, h2 + 1) as nat),
        merkle_children(i1, h1, n1, s1) == merkle_children(i2, h2, n2, s2),
{
    let all = merkle_preimage(p1, i1, h1, n1, s1);
    let l = p1.len() as int;
    let c1 = merkle_children(i1, h1, n1, s1);
    let c2 = merkle_children(i2, h2, n2, s2);
    assert(all == seq![1u8] + p1 + be32(h1) + be32(ancestor_index(i1, h1 + 1) as nat) + c1);
    assert(all == seq![1u8] + p2 + be32(h2) + be32(ancestor_index(i2, h2 + 1) as nat) + c2);
    assert(p1 =~= all.subrange(1, 1 + l));
    assert(p2 =~= all.subrange(1, 1 + l));
    assert(be32(h1) =~= all.subrange(1 + l, 5 + l));
    assert(be32(h2) =~= all.subrange(1 + l, 5 + l));
    assert(be32(ancestor_index(i1, h1 + 1) as nat) =~= all.subrange(5 + l, 9 + l));
    assert(be32(ancestor_index(i2, h2 + 1) as nat) =~= all.subrange(5 + l, 9 + l));
    assert(c1 =~= all.subrange(9 + l, all.len() as int));
    assert(c2 =~= all.subrange(9 + l, all.len() as int));
}

/// The order of the children counts: for a node and a sibling of one width
/// that differ, a leaf index under which the node is the left child and one
/// under which it is the right child give different bytes to hash.
pub proof fn lemma_sibling_order_separates(
    parameter: Seq<u8>,
    i1: u64,
    i2: u64,
    h: nat,
    node: Seq<u8>,
    sibling: Seq<u8>,
)
    requires
        node.len() == sibling.len(),
        node != sibling,
        ancestor_index(i1, h) & 1 == 0,
        ancestor_index(i2, h) & 1 != 0,
    ensures
        merkle_preimage(parameter, i1, h, node, sibling) != merkle_preimage(
            parameter,
            i2,
            h,
            node,
            sibling,
        ),
{
    if merkle_preimage(parameter, i1, h, node, sibling) == merkle_preimage(
        parameter,
        i2,
        h,
        node,
        sibling,
    ) {
        lemma_preimage_separates(
            parameter,
            i1,
            h,
            node,
            sibling,
            parameter,
            i2,
            h,
            node,
            sibling,
        );
        let n = node.len() as int;
        assert(node =~= (node + sibling).subrange(0, n));
        assert(sibling =~= (sibling + node).subrange(0, n));
    }
}

/// The node that stands `levels` levels above the leaf, rebuilt along the path.
pub open spec fn merkle_root(
    leaf: Seq<u8>,
    leaf_index: u64,
    auth_path: Seq<Seq<u8>>,
    parameter: Seq<u8>,
    levels: nat,
) -> Seq<u8>
    decreases levels,
{
    if levels == 0 {
        leaf
    } else {
        merkle_parent(
            parameter,
            leaf_index,
            (levels - 1) as nat,
            merkle_root(leaf, leaf_index, auth_path, parameter, (levels - 1) as nat),
            auth_path[levels - 1],
        )
    }
}

/// The bytes that are hashed to derive the chain steps: the epoch, least
/// significant byte first, and the message.
pub open spec fn step_domain(ep: u64, msg: Seq<u8>) -> Seq<u8> {
    le64(ep as nat) + msg
}

/// The chain steps that every signature over `msg` at epoch `ep` has to
/// answer: the encoding of epoch and message with 32 zero bytes as randomness.
pub open spec fn signature_steps(params: TslParams, msg: Seq<u8>, ep: u64) -> Seq<u16> {
    vertex_of_index(
        digest_index_of(step_domain(ep, msg), Seq::new(32, |i: int| 0u8)),
        params.w as nat,
        params.v as nat,
        params.d0 as nat,
    )
}

/// The signature has the shape that the parameters ask for, and so has the key.
pub open spec fn signature_shape(params: TslParams, sig: Signature, pk: PublicKey) -> bool {
    &&& sig.wots_chain_ends@.len() == params.v
    &&& sig.auth_path@.len() == params.tree_height
    &&& all_width(byte_rows(sig.wots_chain_ends@), NODE_BYTES as nat)
    &&& all_width(byte_rows(sig.auth_path@), NODE_BYTES as nat)
    &&& pk.parameter@.len() == PARAMETER_BYTES
    &&& pk.root@.len() == NODE_BYTES
}

/// The root that the signature leads to under the key's parameter.
pub open spec fn signature_root(
    params: TslParams,
    sig: Signature,
    msg: Seq<u8>,
    ep: u64,
    pk: PublicKey,
) -> Seq<u8> {
    merkle_root(
        chain_leaf(
            params.w as nat,
            signature_steps(params, msg, ep),
            byte_rows(sig.wots_chain_ends@),
        ),
        sig.leaf_index as u64,
        byte_rows(sig.auth_path@),
        pk.parameter@,
        sig.auth_path@.len(),
    )
}

/// The signature is accepted: the parameters are valid, signature and key
/// are well shaped, and the signature leads to the root of the key.
pub open spec fn signature_accepted(
    params: TslParams,
    sig: Signature,
    msg: Seq<u8>,
    ep: u64,
    pk: PublicKey,
) -> bool {
    &&& valid_layer_params(params.w as nat, params.v as nat, params.d0 as nat)
    &&& signature_shape(params, sig, pk)
    &&& signature_root(params, sig, msg, ep, pk) == pk.root@
}

/// The statement and the witness both hold as many entries as the statement announces.
pub open spec fn batch_shape(batch: VerificationBatch) -> bool {
    &&& batch.statement.public_keys@.len() == batch.statement.k
    &&& batch.witness.signatures@.len() == batch.statement.k
}

/// Each of the first `n` signatures of the batch is accepted under the key
/// at its position.
pub open spec fn batch_accepted(batch: VerificationBatch, n: nat) -> bool {
    forall|i: int|
        0 <= i < n ==> signature_accepted(
            batch.params,
            #[trigger] batch.witness.signatures@[i],
            batch.statement.m@,
            batch.statement.ep,
            batch.statement.public_keys@[i],
        )
}

/// The bytes of the first `n` public keys, root before parameter.
pub open spec fn key_bytes(keys: Seq<PublicKey>, n: nat) -> Seq<u8>
    decreases n,
{
    if n == 0 {
        Seq::empty()
    } else {
        key_bytes(keys, (n - 1) as nat) + keys[n - 1].root@ + keys[n - 1].parameter@
    }
}

/// The bytes that a statement is committed to by: the number of signers, the
/// epoch, the message behind its length, and the keys behind their number.
pub open spec fn statement_bytes(stmt: Statement) -> Seq<u8> {
    le32(stmt.k as nat) + le64(stmt.ep as nat) + le32(stmt.m@.len()) + stmt.m@ + le32(
        stmt.public_keys@.len(),
    ) + key_bytes(stmt.public_keys@, stmt.public_keys@.len())
}

/// Message and key list are short enough for their lengths to be written in
/// 32 bits, and every key has a root of `root_width` bytes and a parameter
/// of `parameter_width` bytes.
pub open spec fn statement_framed(stmt: Statement, root_width: nat, parameter_width: nat) -> bool {
    &&& stmt.m@.len() < 0x1_0000_0000
    &&& stmt.public_keys@.len() < 0x1_0000_0000
    &&& forall|i: int|
        0 <= i < stmt.public_keys@.len() ==> (#[trigger] stmt.public_keys@[i]).root@.len()
            == root_width && stmt.public_keys@[i].parameter@.len() == parameter_width
}

/// Two statements say the same: same number of signers, epoch and message,
/// and the same keys in the same order.
pub open spec fn same_statement(a: Statement, b: Statement) -> bool {
    &&& a.k == b.k
    &&& a.ep == b.ep
    &&& a.m@ == b.m@
    &&& a.public_keys@.len() == b.public_keys@.len()
    &&& forall|i: int|
        0 <= i < a.public_keys@.len() ==> (#[trigger] a.public_keys@[i]).root@
            == b.public_keys@[i].root@ && a.public_keys@[i].parameter@
            == b.public_keys@[i].parameter@
}

/// Key lists of one shape whose first `n` keys give the same bytes agree in
/// those keys.
proof fn lemma_key_bytes_injective(
    a: Seq<PublicKey>,
    b: Seq<PublicKey>,
    n: nat,
    root_width: nat,
    parameter_width: nat,
)
    requires
        n <= a.len(),
        n <= b.len(),
        forall|i: int|
            0 <= i < n ==> (#[trigger] a[i]).root@.len() == root_width && a[i].parameter@.len()
                == parameter_width,
        forall|i: int|
            0 <= i < n ==> (#[trigger] b[i]).root@.len() == root_width && b[i].parameter@.len()
                == parameter_width,
        key_bytes(a, n) == key_bytes(b, n),
    ensures
        forall|i: int|
            0 <= i < n ==> (#[trigger] a[i]).root@ == b[i].root@ && a[i].parameter@
                == b[i].parameter@,
    decreases n,
{
    if n > 0 {
        let m = (n - 1) as nat;
        lemma_key_bytes_len(a, b, m, root_width, parameter_width);
        let pa = key_bytes(a, m);
        let pb = key_bytes(b, m);
        let all = key_bytes(a, n);
        assert(all == pa + a[n - 1].root@ + a[n - 1].parameter@);
        assert(all == pb + b[n - 1].root@ + b[n - 1].parameter@);
        let l = pa.len() as int;
        let r = root_width as int;
        let p = parameter_width as int;
        assert(pa =~= all.subrange(0, l));
        assert(pb =~= all.subrange(0, l));
        assert(a[n - 1].root@ =~= all.subrange(l, l + r));
        assert(b[n - 1].root@ =~= all.subrange(l, l + r));
        assert(a[n - 1].parameter@ =~= all.subrange(l + r, l + r + p));
        assert(b[n - 1].parameter@ =~= all.subrange(l + r, l + r + p));
        lemma_key_bytes_injective(a, b, m, root_width, parameter_width);
    }
}

/// Key lists of one shape give as many bytes.
proof fn lemma_key_bytes_len(
    a: Seq<PublicKey>,
    b: Seq<PublicKey>,
    n: nat,
    root_width: nat,
    parameter_width: nat,
)
    requires
        n <= a.len(),
        n <= b.len(),
        forall|i: int|
            0 <= i < n ==> (#[trigger] a[i]).root@.len() == root_width && a[i].parameter@.len()
                == parameter_width,
        forall|i: int|
            0 <= i < n ==> (#[trigger] b[i]).root@.len() == root_width && b[i].parameter@.len()
                == parameter_width,
    ensures
        key_bytes(a, n).len() == key_bytes(b, n).len(),
    decreases n,
{
    if n > 0 {
        lemma_key_bytes_len(a, b, (n - 1) as nat, root_width, parameter_width);
    }
}

/// The bytes of a statement tell statements apart: two statements of one
/// shape that give the same bytes say the same. A change of `k`, `ep`, `m`
/// or of a root or parameter therefore changes what is hashed, and the
/// commitments differ unless SHA-256 collides on the two byte strings.
pub proof fn lemma_statement_bytes_injective(
    a: Statement,
    b: Statement,
    root_width: nat,
    parameter_width: nat,
)
    requires
        statement_framed(a, root_width, parameter_width),
        statement_framed(b, root_width, parameter_width),
        statement_bytes(a) == statement_bytes(b),
    ensures
        same_statement(a, b),
{
    let all = statement_bytes(a);
    let ka = key_bytes(a.public_keys@, a.public_keys@.len());
    let kb = key_bytes(b.public_keys@, b.public_keys@.len());
    let la = a.m@.len() as int;
    let lb = b.m@.len() as int;
    assert(all == le32(a.k as nat) + le64(a.ep as nat) + le32(a.m@.len()) + a.m@ + le32(
        a.public_keys@.len(),
    ) + ka);
    assert(all == le32(b.k as nat) + le64(b.ep as nat) + le32(b.m@.len()) + b.m@ + le32(
        b.public_keys@.len(),
    ) + kb);
    assert(le32(a.k as nat) =~= all.subrange(0, 4));
    assert(le32(b.k as nat) =~= all.subrange(0, 4));
    lemma_le32_injective(a.k as nat, b.k as nat);
    assert(le64(a.ep as nat) =~= all.subrange(4, 12));
    assert(le64(b.ep as nat) =~= all.subrange(4, 12));
    lemma_le64_injective(a.ep as nat, b.ep as nat);
    assert(le32(a.m@.len()) =~= all.subrange(12, 16));
    assert(le32(b.m@.len()) =~= all.subrange(12, 16));
    lemma_le32_injective(a.m@.len(), b.m@.len());
    assert(a.m@ =~= all.subrange(16, 16 + la));
    assert(b.m@ =~= all.subrange(16, 16 + lb));
    assert(le32(a.public_keys@.len()) =~= all.subrange(16 + la, 20 + la));
    assert(le32(b.public_keys@.len()) =~= all.subrange(16 + lb, 20 + lb));
    lemma_le32_injective(a.public_keys@.len(), b.public_keys@.len());
    assert(ka =~= all.subrange(20 + la, all.len() as int));
    assert(kb =~= all.subrange(20 + lb, all.len() as int));
    lemma_key_bytes_injective(
        a.public_keys@,
        b.public_keys@,
        a.public_keys@.len(),
        root_width,
        parameter_width,
    );
}

/// The node that a byte vector of the node width holds.
pub fn vec_to_node(input: &[u8]) -> (res: Option<Node>)
    ensures
        res is Some <==> input@.len() == NODE_BYTES,
        res is Some ==> res->Some_0@ == input@,
{
    if input.len() != NODE_BYTES {
        return None;
    }
    let mut arr: Node = [0u8; NODE_BYTES];
    let mut i: usize = 0;
    while i < NODE_BYTES
        invariant
            i <= NODE_BYTES,
            input@.len() == NODE_BYTES,
            forall|j: int| 0 <= j < i ==> arr@[j] == input@[j],
        decreases NODE_BYTES - i,
    {
        arr[i] = input[i];
        i += 1;
    }
    assert(arr@ =~= input@);
    Some(arr)
}

/// The parameter that a byte vector of the parameter width holds.
pub fn vec_to_parameter(input: &[u8]) -> (res: Option<Parameter>)
    ensures
        res is Some <==> input@.len() == PARAMETER_BYTES,
        res is Some ==> res->Some_0@ == input@,
{
    if input.len() != PARAMETER_BYTES {
        return None;
    }
    let mut arr: Parameter = [0u8; PARAMETER_BYTES];
    let mut i: usize = 0;
    while i < PARAMETER_BYTES
        invariant
            i <= PARAMETER_BYTES,
            input@.len() == PARAMETER_BYTES,
            forall|j: int| 0 <= j < i ==> arr@[j] == input@[j],
        decreases PARAMETER_BYTES - i,
    {
        arr[i] = input[i];
        i += 1;
    }
    assert(arr@ =~= input@);
    Some(arr)
}

/// The nodes that a list of byte vectors holds, if each has the node width.
pub fn vecs_to_nodes(src: &[Vec<u8>]) -> (res: Option<Vec<Node>>)
    ensures
        res is Some <==> all_width(byte_rows(src@), NODE_BYTES as nat),
        res is Some ==> node_rows(res->Some_0@) == byte_rows(src@),
{
    let mut out: Vec<Node> = Vec::new();
    let mut i: usize = 0;
    while i < src.len()
        invariant
            i <= src@.len(),
            out@.len() == i,
            forall|j: int| 0 <= j < i ==> (#[trigger] out@[j])@ == src@[j]@,
            forall|j: int| 0 <= j < i ==> (#[trigger] byte_rows(src@)[j]).len() == NODE_BYTES,
        decreases src@.len() - i,
    {
        match vec_to_node(src[i].as_slice()) {
            Some(node) => {
                out.push(node);
            },
            None => {
                assert(byte_rows(src@)[i as int].len() != NODE_BYTES);
                return None;
            },
        }
        i += 1;
    }
    assert(node_rows(out@) =~= byte_rows(src@));
    Some(out)
}

/// Whether two nodes hold the same bytes.
pub fn nodes_equal(a: &Node, b: &Node) -> (same: bool)
    ensures
        same == (a@ == b@),
{
    let mut i: usize = 0;
    while i < NODE_BYTES
        invariant
            i <= NODE_BYTES,
            forall|j: int| 0 <= j < i ==> a@[j] == b@[j],
        decreases NODE_BYTES - i,
    {
        if a[i] != b[i] {
            return false;
        }
        i += 1;
    }
    assert(a@ =~= b@);
    true
}

/// Walks each chain from its end to its top and hashes the tops into the leaf.
///
/// Chain `i` is hashed `w - 1 - steps[i]` times, and not at all where the
/// step is at or above `w - 1`.
pub fn leaf_from_chain_ends(w: u16, steps: &[u16], chain_ends: &[Node]) -> (leaf: Node)
    requires
        steps@.len() == chain_ends@.len(),
    ensures
        leaf@ == chain_leaf(w as nat, steps@, node_rows(chain_ends@)),
{
    let top: u16 = w.saturating_sub(1);
    let mut concat: Vec<u8> = Vec::new();
    let mut i: usize = 0;
    while i < chain_ends.len()
        invariant
            i <= chain_ends@.len(),
            steps@.len() == chain_ends@.len(),
            top == if w >= 1 { (w - 1) as u16 } else { 0u16 },
            concat@ == chain_tops(w as nat, steps@, node_rows(chain_ends@), i as nat),
        decreases chain_ends@.len() - i,
    {
        let mut val: Node = chain_ends[i];
        let t: u16 = top.saturating_sub(steps[i]);
        assert(t as nat == chain_length(w as nat, steps@[i as int] as nat));
        let mut done: u16 = 0;
        while done < t
            invariant
                done <= t,
                val@ == chain_walk(chain_ends@[i as int]@, done as nat),
            decreases t - done,
        {
            val = truncated_sha256(val.as_slice());
            done += 1;
        }
        concat.extend_from_slice(val.as_slice());
        proof {
            assert(node_rows(chain_ends@)[i as int] == chain_ends@[i as int]@);
            assert(concat@ =~= chain_tops(
                w as nat,
                steps@,
                node_rows(chain_ends@),
                (i + 1) as nat,
            ));
        }
        i += 1;
    }
    truncated_sha256(concat.as_slice())
}

/// The index of the ancestor `h` levels above the leaf.
fn ancestor(leaf_index: u64, h: usize) -> (a: u64)
    ensures
        a == ancestor_index(leaf_index, h as nat),
{
    if h < 64 {
        let shift: u64 = h as u64;
        leaf_index >> shift
    } else {
        0
    }
}

/// The bytes that are hashed into the parent of `node` and `sibling` at height `h`.
pub fn parent_input(
    public_parameter: &Parameter,
    leaf_index: u64,
    h: usize,
    node: &Node,
    sibling: &Node,
) -> (buf: Vec<u8>)
    ensures
        buf@ == merkle_preimage(public_parameter@, leaf_index, h as nat, node@, sibling@),
{
    let bit: u64 = ancestor(leaf_index, h) & 1;
    let parent: u64 = if h < usize::MAX { ancestor(leaf_index, h + 1) } else { 0 };
    let mut buf: Vec<u8> = Vec::new();
    buf.push(1u8);
    buf.extend_from_slice(public_parameter.as_slice());
    push_be32(&mut buf, h as u64);
    push_be32(&mut buf, parent);
    if bit == 0 {
        buf.extend_from_slice(node.as_slice());
        buf.extend_from_slice(sibling.as_slice());
    } else {
        buf.extend_from_slice(sibling.as_slice());
        buf.extend_from_slice(node.as_slice());
    }
    assert(buf@ =~= merkle_preimage(public_parameter@, leaf_index, h as nat, node@, sibling@));
    buf
}

/// Rebuilds the root of a Merkle tree from a leaf, its index and the
/// siblings along its path, lowest first.
pub fn merkle_root_from_path(
    leaf: Node,
    leaf_index: u64,
    auth_path: &[Node],
    public_parameter: &Parameter,
) -> (root: Node)
    ensures
        root@ == merkle_root(
            leaf@,
            leaf_index,
            node_rows(auth_path@),
            public_parameter@,
            auth_path@.len(),
        ),
{
    let mut node: Node = leaf;
    let mut h: usize = 0;
    while h < auth_path.len()
        invariant
            h <= auth_path@.len(),
            node@ == merkle_root(
                leaf@,
                leaf_index,
                node_rows(auth_path@),
                public_parameter@,
                h as nat,
            ),
        decreases auth_path@.len() - h,
    {
        let buf = parent_input(public_parameter, leaf_index, h, &node, &auth_path[h]);
        assert(node_rows(auth_path@)[h as int] == auth_path@[h as int]@);
        node = truncated_sha256(buf.as_slice());
        h += 1;
    }
    node
}

/// Checks one signature over `msg` at epoch `ep` against a public key.
///
/// The chain steps are derived from the epoch and the message, with 32 zero
/// bytes in the place of randomness; the randomness that the signature
/// carries plays no part.
///
/// Invalid parameters and a signature or key of the wrong shape are
/// rejected like a signature that leads to another root.
pub fn verify_one(
    params: &TslParams,
    sig: &Signature,
    msg: &[u8],
    ep: u64,
    pk: &PublicKey,
) -> (ok: bool)
    ensures
        ok == signature_accepted(*params, *sig, msg@, ep, *pk),
{
    if params.w <= 1 || params.v == 0 {
        return false;
    }
    if sig.wots_chain_ends.len() != params.v as usize {
        return false;
    }
    if sig.auth_path.len() != params.tree_height as usize {
        return false;
    }
    let wots_chain = match vecs_to_nodes(sig.wots_chain_ends.as_slice()) {
        Some(v) => v,
        None => {
            return false;
        },
    };
    let auth_path = match vecs_to_nodes(sig.auth_path.as_slice()) {
        Some(v) => v,
        None => {
            return false;
        },
    };
    let pk_parameter = match vec_to_parameter(pk.parameter.as_slice()) {
        Some(seed) => seed,
        None => {
            return false;
        },
    };
    let pk_root = match vec_to_node(pk.root.as_slice()) {
        Some(root) => root,
        None => {
            return false;
        },
    };
    let mut dom: Vec<u8> = Vec::new();
    push_le64(&mut dom, ep);
    dom.extend_from_slice(msg);
    let zero_rnd: [u8; 32] = [0u8; 32];
    proof {
        assert(dom@ =~= step_domain(ep, msg@));
        assert(zero_rnd@ =~= Seq::new(32, |i: int| 0u8));
    }
    let steps = match encode_vertex(dom.as_slice(), zero_rnd.as_slice(), params) {
        Ok(v) => v,
        Err(_) => {
            return false;
        },
    };
    if steps.len() != wots_chain.len() {
        return false;
    }
    let leaf = leaf_from_chain_ends(params.w, steps.as_slice(), wots_chain.as_slice());
    let root = merkle_root_from_path(
        leaf,
        sig.leaf_index as u64,
        auth_path.as_slice(),
        &pk_parameter,
    );
    nodes_equal(&root, &pk_root)
}

/// Checks every signature of a batch against the key at its position.
///
/// Returns whether all were accepted and how many were checked. A batch in
/// which the statement or the witness does not hold as many entries as the
/// statement announces is rejected with nothing checked.
pub fn verify_batch(batch: &VerificationBatch) -> (res: (bool, u32))
    ensures
        batch_shape(*batch) ==> res.1 == batch.statement.k && res.0 == batch_accepted(
            *batch,
            batch.statement.k as nat,
        ),
        !batch_shape(*batch) ==> res == (false, 0u32),
{
    let expected_k: usize = batch.statement.k as usize;
    if batch.statement.public_keys.len() != expected_k {
        return (false, 0);
    }
    if batch.witness.signatures.len() != expected_k {
        return (false, 0);
    }
    let mut all_valid: bool = true;
    let mut count: u32 = 0;
    let mut i: usize = 0;
    while i < expected_k
        invariant
            i <= expected_k,
            expected_k == batch.statement.k,
            batch_shape(*batch),
            count == i,
            all_valid == batch_accepted(*batch, i as nat),
        decreases expected_k - i,
    {
        let ok = verify_one(
            &batch.params,
            &batch.witness.signatures[i],
            batch.statement.m.as_slice(),
            batch.statement.ep,
            &batch.statement.public_keys[i],
        );
        all_valid = all_valid && ok;
        count += 1;
        i += 1;
    }
    (all_valid, count)
}

/// The bytes that a statement is committed to by.
pub fn statement_encoding(stmt: &Statement) -> (buf: Vec<u8>)
    ensures
        buf@ == statement_bytes(*stmt),
{
    let mut buf: Vec<u8> = Vec::new();
    push_le32(&mut buf, stmt.k as u64);
    push_le64(&mut buf, stmt.ep);
    push_le32(&mut buf, stmt.m.len() as u64);
    buf.extend_from_slice(stmt.m.as_slice());
    push_le32(&mut buf, stmt.public_keys.len() as u64);
    let ghost head = buf@;
    assert(head =~= le32(stmt.k as nat) + le64(stmt.ep as nat) + le32(stmt.m@.len()) + stmt.m@
        + le32(stmt.public_keys@.len()));
    let mut i: usize = 0;
    while i < stmt.public_keys.len()
        invariant
            i <= stmt.public_keys@.len(),
            buf@ == head + key_bytes(stmt.public_keys@, i as nat),
        decreases stmt.public_keys@.len() - i,
    {
        let pk = &stmt.public_keys[i];
        buf.extend_from_slice(pk.root.as_slice());
        buf.extend_from_slice(pk.parameter.as_slice());
        assert(buf@ =~= head + key_bytes(stmt.public_keys@, (i + 1) as nat));
        i += 1;
    }
    buf
}

/// The 32-byte commitment that binds a proof to its statement: the SHA-256
/// digest of the statement's bytes.
pub fn statement_commitment(stmt: &Statement) -> (out: [u8; 32])
    ensures
        out@ == sha256(statement_bytes(*stmt)),
{
    let buf = statement_encoding(stmt);
    sha256_bytes(buf.as_slice())
}

} // verus!
