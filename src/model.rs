//! Model import, as far as it is this library's own: the order in which a
//! scene graph's meshes are taken, and the index list of a mesh's faces.

use vstd::prelude::*;

verus! {

/// A node of an imported scene graph: the indices of its meshes in the
/// scene's mesh list, and its children.
pub struct SceneNode {
    pub meshes: Vec<u32>,
    pub children: Vec<SceneNode>,
}

/// A scene that refers to a mesh that it does not hold.
#[derive(Debug, PartialEq, Eq, Structural)]
pub enum ModelError {
    MissingMesh(u32),
}

/// The meshes of `n` and its descendants, depth first: a node's own meshes
/// come before its children's.
pub open spec fn flatten(n: SceneNode) -> Seq<u32>
    decreases n, n.children@.len() + 1,
{
    n.meshes@ + flatten_from(n, 0)
}

/// The meshes of the children of `n` from the `i`-th on, each flattened.
pub open spec fn flatten_from(n: SceneNode, i: int) -> Seq<u32>
    decreases n, n.children@.len() - i,
{
    if 0 <= i < n.children@.len() {
        flatten(n.children@[i]) + flatten_from(n, i + 1)
    } else {
        Seq::empty()
    }
}

/// The first mesh index of `order` that is not below `n_meshes` is at `k`.
pub open spec fn first_missing_at(order: Seq<u32>, n_meshes: int, k: int) -> bool {
    &&& 0 <= k < order.len()
    &&& order[k] >= n_meshes
    &&& forall|j: int| 0 <= j < k ==> (#[trigger] order[j]) < n_meshes
}

/// Appends the meshes of `node` and its descendants to `out`, depth first.
fn flatten_into(node: &SceneNode, out: &mut Vec<u32>)
    requires
        old(out)@.len() + flatten(*node).len() <= usize::MAX,
    ensures
        final(out)@ == old(out)@ + flatten(*node),
    decreases node,
{
    let ghost o0 = out@;
    let mut k: usize = 0;
    while k < node.meshes.len()
        invariant
            0 <= k <= node.meshes@.len(),
            out@ == o0 + node.meshes@.take(k as int),
        decreases node.meshes@.len() - k,
    {
        out.push(node.meshes[k]);
        proof {
            assert(node.meshes@.take(k + 1) =~= node.meshes@.take(k as int).push(node.meshes@[k as int]));
        }
        k = k + 1;
    }
    assert(node.meshes@.take(node.meshes@.len() as int) =~= node.meshes@);
    let mut i: usize = 0;
    while i < node.children.len()
        invariant
            0 <= i <= node.children@.len(),
            out@ + flatten_from(*node, i as int) =~= o0 + flatten(*node),
            o0.len() + flatten(*node).len() <= usize::MAX,
        decreases node.children@.len() - i,
    {
        let ghost before = out@;
        assert(flatten_from(*node, i as int) == flatten(node.children@[i as int]) + flatten_from(
            *node,
            i + 1,
        ));
        assert(out@.len() + flatten_from(*node, i as int).len() == o0.len() + flatten(*node).len()) by {
            assert((out@ + flatten_from(*node, i as int)).len() == (o0 + flatten(*node)).len());
        }
        flatten_into(&node.children[i], out);
        assert(before + (flatten(node.children@[i as int]) + flatten_from(*node, i + 1)) =~= out@
            + flatten_from(*node, i + 1));
        i = i + 1;
    }
}

/// The order in which a model takes the meshes of a scene whose mesh list
/// has `n_meshes` entries: depth first from `root`, each node's own meshes
/// before its children's. A reference to a mesh the scene does not hold is
/// reported, the first in that order.
pub fn cvt_node(root: &SceneNode, n_meshes: usize) -> (r: Result<Vec<u32>, ModelError>)
    requires
        flatten(*root).len() <= usize::MAX,
    ensures
        r is Ok <==> forall|j: int| 0 <= j < flatten(*root).len() ==> (#[trigger] flatten(*root)[j]) < n_meshes,
        r matches Ok(v) ==> v@ == flatten(*root),
        r matches Err(ModelError::MissingMesh(m)) ==> exists|k: int|
            first_missing_at(flatten(*root), n_meshes as int, k) && flatten(*root)[k] == m,
{
    let mut order: Vec<u32> = Vec::new();
    flatten_into(root, &mut order);
    assert(order@ =~= flatten(*root));
    let mut k: usize = 0;
    while k < order.len()
        invariant
            order@ == flatten(*root),
            0 <= k <= order@.len(),
            forall|j: int| 0 <= j < k ==> (#[trigger] order@[j]) < n_meshes,
        decreases order@.len() - k,
    {
        if order[k] as usize >= n_meshes {
            proof {
                assert(first_missing_at(flatten(*root), n_meshes as int, k as int));
            }
            return Err(ModelError::MissingMesh(order[k]));
        }
        k = k + 1;
    }
    Ok(order)
}

/// The faces' indices, one face after another.
pub open spec fn face_indices(faces: Seq<Vec<u32>>, n: int) -> Seq<u32>
    decreases n,
{
    if n <= 0 {
        Seq::empty()
    } else {
        face_indices(faces, n - 1) + faces[n - 1]@
    }
}

/// The index list of a mesh: its faces' indices, one face after another.
pub fn cvt_faces(faces: &Vec<Vec<u32>>) -> (r: Vec<u32>)
    requires
        face_indices(faces@, faces@.len() as int).len() <= usize::MAX,
    ensures
        r@ == face_indices(faces@, faces@.len() as int),
{
    let mut out: Vec<u32> = Vec::new();
    let mut i: usize = 0;
    while i < faces.len()
        invariant
            0 <= i <= faces@.len(),
            face_indices(faces@, faces@.len() as int).len() <= usize::MAX,
            out@ == face_indices(faces@, i as int),
        decreases faces@.len() - i,
    {
        let face = &faces[i];
        let ghost o0 = out@;
        proof {
            lemma_face_indices_grow(faces@, i + 1, faces@.len() as int);
        }
        let mut k: usize = 0;
        while k < face.len()
            invariant
                0 <= k <= face@.len(),
                face@ == faces@[i as int]@,
                o0 == face_indices(faces@, i as int),
                o0.len() + face@.len() <= usize::MAX,
                out@ == o0 + face@.take(k as int),
            decreases face@.len() - k,
        {
            out.push(face[k]);
            proof {
                assert(face@.take(k + 1) =~= face@.take(k as int).push(face@[k as int]));
            }
            k = k + 1;
        }
        assert(face@.take(face@.len() as int) =~= face@);
        i = i + 1;
    }
    out
}

pub proof fn lemma_face_indices_grow(faces: Seq<Vec<u32>>, m: int, n: int)
    requires
        0 <= m <= n <= faces.len(),
    ensures
        face_indices(faces, m).len() <= face_indices(faces, n).len(),
    decreases n - m,
{
    if m < n {
        lemma_face_indices_grow(faces, m, n - 1);
    }
}

} // verus!
