//! The scene tree: a named model with the scenes below it.
//!
//! A scene is decoded header first: the header must be the one of the
//! requested revision, and no other revision is tried in its place. The
//! model body names the scene and says how many children follow; exactly
//! that many scenes are then decoded, with the same revision.
//!
//! How far a tree branches and nests is decided by the data, which may not
//! be trusted, so both are bounded before they are acted upon. A decoder
//! is told how many levels it may descend, [`MAX_DEPTH`] unless the caller
//! says otherwise, and refuses a tree that nests deeper with
//! [`Error::TooDeep`]. Children are decoded one by one and nothing is
//! allocated for a child before the child is there; since a scene takes at
//! least the eight bytes of its header, a tree has at most an eighth as
//! many scenes as it took bytes ([`lemma_scene_count_bounded`]).

use vstd::prelude::*;
use crate::{ModelHeader, MAGIC};
use crate::error::Error;
use crate::encode::{Decode, Encode, count, count_of, holds_at, lemma_holds_at_split, outcome};
use vstd::string::StringExecFns;

verus! {

/// What a model body says of the scene it belongs to.
#[derive(Debug, Clone)]
pub struct NodeData {
    /// How many child scenes follow the model in the stream.
    pub additional_models: u32,
    /// The name of the scene.
    pub name: String,
}

/// The mathematical view of a [`NodeData`].
pub struct NodeDataView {
    pub additional_models: u32,
    pub name: Seq<char>,
}

impl DeepView for NodeData {
    type V = NodeDataView;

    open spec fn deep_view(&self) -> NodeDataView {
        NodeDataView { additional_models: self.additional_models, name: self.name@ }
    }
}

/// A revision of the format: its header, and how a model body of that
/// revision is decoded and encoded.
pub trait Model: Sized + DeepView {
    /// The header that announces this revision.
    spec fn header() -> ModelHeader;

    /// The header that announces this revision.
    fn expected_header() -> (h: ModelHeader)
        ensures
            h == Self::header(),
    ;

    /// What decoding a model body at `pos` yields.
    spec fn decoded(data: Seq<u8>, pos: int) -> Result<((Self::V, NodeDataView), int), Error>;

    /// The bytes of a model body, or why it cannot be written.
    spec fn encoded(v: Self::V, node: NodeDataView) -> Result<Seq<u8>, Error>;

    /// Every revision opens with the magic number.
    proof fn lemma_header_magic()
        ensures
            Self::header().magic == MAGIC,
    ;

    /// A decoder takes at least one byte and stays inside the data.
    proof fn lemma_decoded_bounds(data: Seq<u8>, pos: int)
        ensures
            Self::decoded(data, pos) matches Ok((_, end)) ==> 0 <= pos < end <= data.len(),
    ;

    /// Decodes a model body at `pos`.
    fn read(data: &[u8], pos: usize) -> (r: Result<((Self, NodeData), usize), Error>)
        ensures
            outcome(r) == Self::decoded(data@, pos as int),
    ;

    /// Appends the model body to `out`. On failure `out` is left as it was.
    fn write(&self, out: &mut Vec<u8>, node: NodeData) -> (r: Result<(), Error>)
        ensures
            match Self::encoded(self.deep_view(), node.deep_view()) {
                Ok(bytes) => r is Ok && final(out)@ == old(out)@ + bytes,
                Err(e) => r == Err::<(), Error>(e) && final(out)@ == old(out)@,
            },
    ;
}

/// A revision whose models can be written and come back from their bytes.
pub trait LosslessModel: Model {
    /// What a model must satisfy, beyond being writable, to come back from
    /// its bytes unchanged.
    spec fn lossless(v: Self::V, node: NodeDataView) -> bool;

    /// Decoding what was encoded gives the model and what it says of its
    /// scene back, wherever the bytes stand and whatever follows them.
    proof fn lemma_round_trip(v: Self::V, node: NodeDataView, data: Seq<u8>, pos: int)
        requires
            Self::lossless(v, node),
            Self::encoded(v, node) is Ok,
            holds_at(data, pos, Self::encoded(v, node).unwrap()),
        ensures
            Self::decoded(data, pos) == Ok::<((Self::V, NodeDataView), int), Error>(
                ((v, node), pos + Self::encoded(v, node).unwrap().len()),
            ),
    ;
}

/// A scene: a named model, and the scenes below it. A scene owns its
/// children; no scene is shared and none contains itself.
pub struct Scene<M: Model> {
    pub name: String,
    pub model: M,
    pub children: Vec<Scene<M>>,
}

/// The mathematical view of a [`Scene`], over the view of its models.
pub struct SceneView<V> {
    pub name: Seq<char>,
    pub model: V,
    pub children: Seq<SceneView<V>>,
}

/// The view of a scene: its name, the view of its model, and the views of
/// its children.
pub open spec fn scene_view<M: Model>(scene: Scene<M>) -> SceneView<M::V>
    decreases scene,
{
    SceneView {
        name: scene.name@,
        model: scene.model.deep_view(),
        children: Seq::new(
            scene.children@.len(),
            |i: int|
                if 0 <= i < scene.children@.len() {
                    scene_view(scene.children@[i])
                } else {
                    arbitrary()
                },
        ),
    }
}

impl<M: Model> DeepView for Scene<M> {
    type V = SceneView<M::V>;

    open spec fn deep_view(&self) -> SceneView<M::V> {
        scene_view(*self)
    }
}

/// How many levels below its root a tree may have to be decoded by
/// [`Scene::read`].
pub const MAX_DEPTH: usize = 255;

/// What decoding a scene at `pos` yields where the tree may have `depth`
/// levels below this scene: the header must be the one of the revision
/// `M`; then comes the model body, which names the scene and says how many
/// children follow; then come the children.
pub open spec fn decoded_scene<M: Model>(data: Seq<u8>, pos: int, depth: nat) -> Result<
    (SceneView<M::V>, int),
    Error,
>
    decreases depth, 1int, 0nat,
{
    match ModelHeader::decoded(data, pos) {
        Err(e) => Err(e),
        Ok((header, start)) => if header == M::header() {
            decoded_scene_body::<M>(data, start, depth)
        } else {
            Err(Error::WrongHeader { expected: M::header(), actual: header })
        },
    }
}

/// What decoding a scene yields once its header has been taken. A scene
/// that announces children where no further level is allowed is refused.
pub open spec fn decoded_scene_body<M: Model>(data: Seq<u8>, pos: int, depth: nat) -> Result<
    (SceneView<M::V>, int),
    Error,
>
    decreases depth, 0int, 0nat,
{
    match M::decoded(data, pos) {
        Err(e) => Err(e),
        Ok(((model, node), start)) => if node.additional_models == 0 {
            Ok((SceneView { name: node.name, model, children: Seq::empty() }, start))
        } else if depth == 0 {
            Err(Error::TooDeep)
        } else {
            match decoded_children::<M>(
                data,
                start,
                node.additional_models as nat,
                (depth - 1) as nat,
            ) {
                Err(e) => Err(e),
                Ok((children, end)) => Ok((SceneView { name: node.name, model, children }, end)),
            }
        },
    }
}

/// What decoding `n` scenes in a row yields, each with `depth` levels
/// allowed below it: the scenes in order and the position after the last,
/// or the error of the first that fails.
pub open spec fn decoded_children<M: Model>(data: Seq<u8>, pos: int, n: nat, depth: nat) -> Result<
    (Seq<SceneView<M::V>>, int),
    Error,
>
    decreases depth, 2int, n,
{
    if n == 0 {
        Ok((Seq::empty(), pos))
    } else {
        match decoded_children::<M>(data, pos, (n - 1) as nat, depth) {
            Err(e) => Err(e),
            Ok((init, mid)) => match decoded_scene::<M>(data, mid, depth) {
                Err(e) => Err(e),
                Ok((last, end)) => Ok((init.push(last), end)),
            },
        }
    }
}

/// Whether a tree has at most `depth` levels below its root.
pub open spec fn nests_within<V>(scene: SceneView<V>, depth: nat) -> bool
    decreases depth,
{
    scene.children.len() == 0 || (depth > 0 && forall|i: int|
        0 <= i < scene.children.len() ==> nests_within(
            #[trigger] scene.children[i],
            (depth - 1) as nat,
        ))
}

/// The bytes of a scene: the header of the revision `M`, the model body,
/// which carries the scene's name and the number of its children, then the
/// children in order. Where the model or a child cannot be written, the
/// error is that of the first, in this order, that cannot.
pub open spec fn encoded_scene<M: Model>(scene: SceneView<M::V>) -> Result<Seq<u8>, Error>
    decreases scene,
{
    let node = NodeDataView {
        additional_models: count_of(scene.children.len()),
        name: scene.name,
    };
    match M::encoded(scene.model, node) {
        Err(e) => Err(e),
        Ok(body) => match encoded_children::<M>(scene.children) {
            Err(e) => Err(e),
            Ok(rest) => Ok(ModelHeader::encoded(M::header()) + body + rest),
        },
    }
}

/// The bytes of a row of scenes.
pub open spec fn encoded_children<M: Model>(children: Seq<SceneView<M::V>>) -> Result<
    Seq<u8>,
    Error,
>
    decreases children,
{
    if children.len() == 0 {
        Ok(Seq::empty())
    } else {
        match encoded_children::<M>(children.drop_last()) {
            Err(e) => Err(e),
            Ok(init) => match encoded_scene::<M>(children.last()) {
                Err(e) => Err(e),
                Ok(last) => Ok(init + last),
            },
        }
    }
}

/// How many scenes a tree holds, its root included.
pub open spec fn scene_count<V>(scene: SceneView<V>) -> nat
    decreases scene,
{
    1 + children_count(scene.children)
}

/// How many scenes the trees of a row hold together.
pub open spec fn children_count<V>(children: Seq<SceneView<V>>) -> nat
    decreases children,
{
    if children.len() == 0 {
        0
    } else {
        children_count(children.drop_last()) + scene_count(children.last())
    }
}

/// A scene takes at least the eight bytes of its header, ends inside the
/// data, and nests no deeper than it was allowed to.
pub proof fn lemma_decoded_scene_bounds<M: Model>(data: Seq<u8>, pos: int, depth: nat)
    ensures
        decoded_scene::<M>(data, pos, depth) matches Ok((scene, end)) ==> 0 <= pos && pos + 8
            < end <= data.len() && nests_within(scene, depth),
    decreases depth, 1int, 0nat,
{
    ModelHeader::lemma_decoded_bounds(data, pos);
    if let Ok((header, start)) = ModelHeader::decoded(data, pos) {
        if header == M::header() {
            lemma_decoded_scene_body_bounds::<M>(data, start, depth);
        }
    }
}

/// A scene without its header ends inside the data, after its start, and
/// nests no deeper than it was allowed to.
pub proof fn lemma_decoded_scene_body_bounds<M: Model>(data: Seq<u8>, pos: int, depth: nat)
    ensures
        decoded_scene_body::<M>(data, pos, depth) matches Ok((scene, end)) ==> 0 <= pos < end
            <= data.len() && nests_within(scene, depth),
    decreases depth, 0int, 0nat,
{
    M::lemma_decoded_bounds(data, pos);
    if let Ok(((model, node), start)) = M::decoded(data, pos) {
        if node.additional_models != 0 && depth > 0 {
            lemma_decoded_children_bounds::<M>(
                data,
                start,
                node.additional_models as nat,
                (depth - 1) as nat,
            );
        }
    }
}

/// A row of scenes has as many scenes as were asked for, ends inside the
/// data, at or after its start, and none of its scenes nests deeper than
/// it was allowed to.
pub proof fn lemma_decoded_children_bounds<M: Model>(data: Seq<u8>, pos: int, n: nat, depth: nat)
    requires
        0 <= pos <= data.len(),
    ensures
        decoded_children::<M>(data, pos, n, depth) matches Ok((children, end)) ==> {
            &&& children.len() == n
            &&& pos <= end <= data.len()
            &&& forall|i: int| 0 <= i < n ==> nests_within(#[trigger] children[i], depth)
        },
    decreases depth, 2int, n,
{
    if n > 0 {
        lemma_decoded_children_bounds::<M>(data, pos, (n - 1) as nat, depth);
        if let Ok((init, mid)) = decoded_children::<M>(data, pos, (n - 1) as nat, depth) {
            lemma_decoded_scene_bounds::<M>(data, mid, depth);
            if let Ok((last, end)) = decoded_scene::<M>(data, mid, depth) {
                let children = init.push(last);
                assert forall|i: int| 0 <= i < n implies nests_within(
                    #[trigger] children[i],
                    depth,
                ) by {
                    if i < n - 1 {
                        assert(children[i] == init[i]);
                    }
                }
            }
        }
    }
}

/// A decoded tree takes at least eight bytes for each of its scenes.
pub proof fn lemma_scene_count_bounded<M: Model>(data: Seq<u8>, pos: int, depth: nat)
    ensures
        decoded_scene::<M>(data, pos, depth) matches Ok((scene, end)) ==> pos + 8 * scene_count(
            scene,
        ) <= end,
    decreases depth, 1int, 0nat,
{
    ModelHeader::lemma_decoded_bounds(data, pos);
    if let Ok((header, start)) = ModelHeader::decoded(data, pos) {
        if header == M::header() {
            M::lemma_decoded_bounds(data, start);
            if let Ok(((model, node), after)) = M::decoded(data, start) {
                if node.additional_models == 0 {
                    assert(children_count(Seq::<SceneView<M::V>>::empty()) == 0);
                } else if depth > 0 {
                    lemma_children_count_bounded::<M>(
                        data,
                        after,
                        node.additional_models as nat,
                        (depth - 1) as nat,
                    );
                }
            }
        }
    }
}

/// A decoded row of trees takes at least eight bytes for each of its scenes.
pub proof fn lemma_children_count_bounded<M: Model>(data: Seq<u8>, pos: int, n: nat, depth: nat)
    requires
        0 <= pos <= data.len(),
    ensures
        decoded_children::<M>(data, pos, n, depth) matches Ok((children, end)) ==> pos + 8
            * children_count(children) <= end,
    decreases depth, 2int, n,
{
    if n > 0 {
        lemma_children_count_bounded::<M>(data, pos, (n - 1) as nat, depth);
        lemma_decoded_children_bounds::<M>(data, pos, (n - 1) as nat, depth);
        if let Ok((init, mid)) = decoded_children::<M>(data, pos, (n - 1) as nat, depth) {
            lemma_scene_count_bounded::<M>(data, mid, depth);
            if let Ok((last, end)) = decoded_scene::<M>(data, mid, depth) {
                let children = init.push(last);
                assert(children.drop_last() =~= init);
                assert(children.last() == last);
            }
        }
    }
}

/// Once a scene of the row fails to decode, so does every longer row.
pub proof fn lemma_decoded_children_fails<M: Model>(
    data: Seq<u8>,
    pos: int,
    k: nat,
    n: nat,
    depth: nat,
    e: Error,
)
    requires
        k <= n,
        decoded_children::<M>(data, pos, k, depth) == Err::<(Seq<SceneView<M::V>>, int), Error>(e),
    ensures
        decoded_children::<M>(data, pos, n, depth) == Err::<(Seq<SceneView<M::V>>, int), Error>(e),
    decreases n,
{
    if k < n {
        lemma_decoded_children_fails::<M>(data, pos, k, (n - 1) as nat, depth, e);
    }
}

/// The children of a scene's view are the views of its children.
pub proof fn lemma_children_view<M: Model>(scene: &Scene<M>)
    ensures
        scene.deep_view().children == scene.children.deep_view(),
{
    let a = scene.deep_view().children;
    let b = scene.children.deep_view();
    assert(a.len() == b.len());
    assert forall|i: int| 0 <= i < a.len() implies a[i] == b[i] by {
        assert(a[i] == scene_view(scene.children@[i]));
    }
    assert(a =~= b);
}

impl<M: Model> Scene<M> {
    /// The scene that holds `model` under the name of a root, with no children.
    pub fn root(model: M) -> (scene: Scene<M>)
        ensures
            scene.name@ == "Scene Root"@,
            scene.model == model,
            scene.children@.len() == 0,
    {
        Scene { name: String::from_str("Scene Root"), model, children: Vec::new() }
    }

    /// The scene that holds `model` under `name`, with no children.
    pub fn single(name: String, model: M) -> (scene: Scene<M>)
        ensures
            scene.name == name,
            scene.model == model,
            scene.children@.len() == 0,
    {
        Scene { name, model, children: Vec::new() }
    }

    /// Decodes a scene, header first, with at most [`MAX_DEPTH`] levels
    /// below it. The header must be that of `M`: no other revision is
    /// tried in its place.
    pub fn read(data: &[u8], pos: usize) -> (r: Result<(Scene<M>, usize), Error>)
        ensures
            outcome(r) == decoded_scene::<M>(data@, pos as int, MAX_DEPTH as nat),
    {
        Self::read_within(data, pos, MAX_DEPTH)
    }

    /// Decodes a scene whose header the caller has taken and checked, with
    /// at most [`MAX_DEPTH`] levels below it.
    pub fn read_without_header(data: &[u8], pos: usize) -> (r: Result<(Scene<M>, usize), Error>)
        ensures
            outcome(r) == decoded_scene_body::<M>(data@, pos as int, MAX_DEPTH as nat),
    {
        Self::read_without_header_within(data, pos, MAX_DEPTH)
    }

    /// Decodes a scene, header first, with at most `depth` levels below it.
    pub fn read_within(data: &[u8], pos: usize, depth: usize) -> (r: Result<
        (Scene<M>, usize),
        Error,
    >)
        ensures
            outcome(r) == decoded_scene::<M>(data@, pos as int, depth as nat),
        decreases depth, 1int,
    {
        let (header, start) = ModelHeader::read(data, pos)?;
        let expected = M::expected_header();
        if header != expected {
            return Err(Error::WrongHeader { expected, actual: header });
        }
        Self::read_without_header_within(data, start, depth)
    }

    /// Decodes a scene whose header the caller has taken and checked, with
    /// at most `depth` levels below it.
    pub fn read_without_header_within(data: &[u8], pos: usize, depth: usize) -> (r: Result<
        (Scene<M>, usize),
        Error,
    >)
        ensures
            outcome(r) == decoded_scene_body::<M>(data@, pos as int, depth as nat),
        decreases depth, 0int,
    {
        let ((model, node), start) = M::read(data, pos)?;
        let n = node.additional_models;
        let mut scene = Scene::single(node.name, model);
        proof {
            lemma_children_view(&scene);
            assert(scene.deep_view().children =~= Seq::<SceneView<M::V>>::empty());
        }
        if n == 0 {
            return Ok((scene, start));
        }
        if depth == 0 {
            return Err(Error::TooDeep);
        }
        let mut cur: usize = start;
        let mut i: u32 = 0;
        let ghost name = scene.name@;
        let ghost model_view = scene.model.deep_view();
        while i < n
            invariant
                i <= n,
                n != 0,
                depth > 0,
                scene.name@ == name,
                scene.model.deep_view() == model_view,
                M::decoded(data@, pos as int) == Ok::<((M::V, NodeDataView), int), Error>(
                    ((model_view, NodeDataView { additional_models: n, name }), start as int),
                ),
                decoded_children::<M>(data@, start as int, i as nat, (depth - 1) as nat) == Ok::<
                    (Seq<SceneView<M::V>>, int),
                    Error,
                >((scene.children.deep_view(), cur as int)),
            decreases n - i,
        {
            match Scene::<M>::read_within(data, cur, depth - 1) {
                Err(e) => {
                    proof {
                        lemma_decoded_children_fails::<M>(
                            data@,
                            start as int,
                            (i + 1) as nat,
                            n as nat,
                            (depth - 1) as nat,
                            e,
                        );
                    }
                    return Err(e);
                },
                Ok((child, next)) => {
                    let ghost before = scene.children.deep_view();
                    scene.children.push(child);
                    assert(scene.children.deep_view() =~= before.push(child.deep_view()));
                    cur = next;
                    i = i + 1;
                },
            }
        }
        proof {
            lemma_children_view(&scene);
        }
        Ok((scene, cur))
    }

    /// Appends the scene to `out`: its header, its model, then its
    /// children in order. On failure `out` is left as it was.
    pub fn write(&self, out: &mut Vec<u8>) -> (r: Result<(), Error>)
        ensures
            match encoded_scene::<M>(self.deep_view()) {
                Ok(bytes) => r is Ok && final(out)@ == old(out)@ + bytes,
                Err(e) => r == Err::<(), Error>(e) && final(out)@ == old(out)@,
            },
        decreases self,
    {
        proof {
            lemma_children_view(self);
        }
        let start = out.len();
        let node = NodeData {
            additional_models: count(self.children.len()),
            name: self.name.clone(),
        };
        let ghost all = self.children.deep_view();
        let ghost head = ModelHeader::encoded(M::header());
        M::expected_header().write(out)?;
        if let Err(e) = self.model.write(out, node) {
            out.truncate(start);
            assert(out@ =~= old(out)@);
            return Err(e);
        }
        let ghost body = M::encoded(
            self.model.deep_view(),
            NodeDataView { additional_models: count_of(all.len()), name: self.name@ },
        ).unwrap();
        let mut i: usize = 0;
        assert(all.take(0) =~= Seq::<SceneView<M::V>>::empty());
        while i < self.children.len()
            invariant
                i <= self.children@.len(),
                all == self.children.deep_view(),
                all == self.deep_view().children,
                start == old(out)@.len(),
                M::encoded(
                    self.model.deep_view(),
                    NodeDataView { additional_models: count_of(all.len()), name: self.name@ },
                ) == Ok::<Seq<u8>, Error>(body),
                head == ModelHeader::encoded(M::header()),
                encoded_children::<M>(all.take(i as int)) is Ok,
                out@ == old(out)@ + head + body + encoded_children::<M>(
                    all.take(i as int),
                ).unwrap(),
            decreases self.children@.len() - i,
        {
            proof {
                let next = all.take(i + 1);
                assert(next.drop_last() =~= all.take(i as int));
                assert(next.last() == all[i as int]);
                assert(all[i as int] == self.children@[i as int].deep_view());
            }
            match self.children[i].write(out) {
                Err(e) => {
                    out.truncate(start);
                    assert(out@ =~= old(out)@);
                    proof {
                        lemma_encoded_children_fails::<M>(all, i + 1, e);
                    }
                    return Err(e);
                },
                Ok(()) => {
                    assert(out@ =~= old(out)@ + head + body + encoded_children::<M>(
                        all.take(i + 1),
                    ).unwrap());
                    i = i + 1;
                },
            }
        }
        proof {
            assert(all.take(i as int) =~= all);
            assert(out@ =~= old(out)@ + (head + body + encoded_children::<M>(all).unwrap()));
        }
        Ok(())
    }
}

/// Where the first `k` scenes of a row cannot be written, the row cannot,
/// for the same reason.
pub proof fn lemma_encoded_children_fails<M: Model>(
    children: Seq<SceneView<M::V>>,
    k: int,
    e: Error,
)
    requires
        0 <= k <= children.len(),
        encoded_children::<M>(children.take(k)) == Err::<Seq<u8>, Error>(e),
    ensures
        encoded_children::<M>(children) == Err::<Seq<u8>, Error>(e),
    decreases children.len(),
{
    if k < children.len() {
        assert(children.drop_last().take(k) =~= children.take(k));
        lemma_encoded_children_fails::<M>(children.drop_last(), k, e);
    } else {
        assert(children.take(k) =~= children);
    }
}

/// A scene whose header is not the one of the requested revision is
/// refused, with both headers in the error; and since every revision opens
/// with the magic number, a scene with another magic number is refused
/// whichever revision is requested.
pub proof fn lemma_header_decides<M: Model>(data: Seq<u8>, pos: int, depth: nat)
    requires
        0 <= pos,
        pos + 8 <= data.len(),
    ensures
        ModelHeader::decoded(data, pos) matches Ok((header, start)) && start == pos + 8 && (
        if header == M::header() {
            decoded_scene::<M>(data, pos, depth) == decoded_scene_body::<M>(data, start, depth)
        } else {
            decoded_scene::<M>(data, pos, depth) == Err::<(SceneView<M::V>, int), Error>(
                Error::WrongHeader { expected: M::header(), actual: header },
            )
        }) && (header.magic != MAGIC ==> header != M::header()),
{
    M::lemma_header_magic();
}

/// A scene has exactly as many children as its model body announced, each
/// decoded with the revision of the scene itself.
pub proof fn lemma_children_as_announced<M: Model>(data: Seq<u8>, pos: int, depth: nat)
    ensures
        decoded_scene_body::<M>(data, pos, depth) matches Ok((scene, _)) ==> M::decoded(data, pos)
            matches Ok(((_, node), _)) && scene.children.len() == node.additional_models
            && scene.name == node.name,
{
    M::lemma_decoded_bounds(data, pos);
    if let Ok(((model, node), start)) = M::decoded(data, pos) {
        if node.additional_models != 0 && depth > 0 {
            lemma_decoded_children_bounds::<M>(
                data,
                start,
                node.additional_models as nat,
                (depth - 1) as nat,
            );
        }
    }
}

/// The limit on the depth only refuses: what is decoded within a limit is
/// decoded, to the same tree, within every higher limit.
pub proof fn lemma_depth_only_refuses<M: Model>(data: Seq<u8>, pos: int, depth: nat, more: nat)
    requires
        depth <= more,
        decoded_scene::<M>(data, pos, depth) is Ok,
    ensures
        decoded_scene::<M>(data, pos, more) == decoded_scene::<M>(data, pos, depth),
    decreases depth, 1int, 0nat,
{
    if let Ok((header, start)) = ModelHeader::decoded(data, pos) {
        if let Ok(((model, node), after)) = M::decoded(data, start) {
            if node.additional_models != 0 {
                lemma_depth_only_refuses_children::<M>(
                    data,
                    after,
                    node.additional_models as nat,
                    (depth - 1) as nat,
                    (more - 1) as nat,
                );
            }
        }
    }
}

/// What a row decodes to within a limit, it decodes to within every higher limit.
pub proof fn lemma_depth_only_refuses_children<M: Model>(
    data: Seq<u8>,
    pos: int,
    n: nat,
    depth: nat,
    more: nat,
)
    requires
        depth <= more,
        decoded_children::<M>(data, pos, n, depth) is Ok,
    ensures
        decoded_children::<M>(data, pos, n, more) == decoded_children::<M>(data, pos, n, depth),
    decreases depth, 2int, n,
{
    if n > 0 {
        lemma_depth_only_refuses_children::<M>(data, pos, (n - 1) as nat, depth, more);
        let (init, mid) = decoded_children::<M>(data, pos, (n - 1) as nat, depth).unwrap();
        lemma_depth_only_refuses::<M>(data, mid, depth, more);
    }
}

/// What a scene must satisfy, beyond being writable, to come back from its
/// bytes unchanged where `depth` levels are allowed below it: it nests no
/// deeper, its model is lossless, the number of its children fits 32 bits,
/// and the same holds of each child one level down.
pub open spec fn lossless_scene<M: LosslessModel>(scene: SceneView<M::V>, depth: nat) -> bool
    decreases scene,
{
    &&& scene.children.len() <= u32::MAX
    &&& scene.children.len() > 0 ==> depth > 0
    &&& M::lossless(
        scene.model,
        NodeDataView { additional_models: count_of(scene.children.len()), name: scene.name },
    )
    &&& forall|i: int|
        0 <= i < scene.children.len() ==> lossless_scene::<M>(
            #[trigger] scene.children[i],
            (depth - 1) as nat,
        )
}

/// Decoding an encoded scene gives the whole tree back: every name, every
/// model and every child, in order, wherever the bytes stand and whatever
/// follows them.
pub proof fn lemma_scene_round_trip<M: LosslessModel>(
    scene: SceneView<M::V>,
    depth: nat,
    data: Seq<u8>,
    pos: int,
)
    requires
        lossless_scene::<M>(scene, depth),
        encoded_scene::<M>(scene) is Ok,
        holds_at(data, pos, encoded_scene::<M>(scene).unwrap()),
    ensures
        decoded_scene::<M>(data, pos, depth) == Ok::<(SceneView<M::V>, int), Error>(
            (scene, pos + encoded_scene::<M>(scene).unwrap().len()),
        ),
    decreases scene,
{
    let node = NodeDataView {
        additional_models: count_of(scene.children.len()),
        name: scene.name,
    };
    let head = ModelHeader::encoded(M::header());
    let body = M::encoded(scene.model, node).unwrap();
    let rest = encoded_children::<M>(scene.children).unwrap();
    lemma_holds_at_split(data, pos, head + body, rest);
    lemma_holds_at_split(data, pos, head, body);
    ModelHeader::lemma_round_trip(M::header(), data, pos);
    M::lemma_round_trip(scene.model, node, data, pos + head.len());
    if scene.children.len() == 0 {
        assert(scene.children =~= Seq::<SceneView<M::V>>::empty());
        assert(rest.len() == 0);
    } else {
        lemma_children_round_trip::<M>(
            scene.children,
            (depth - 1) as nat,
            data,
            pos + head.len() + body.len(),
        );
    }
}

/// Decoding an encoded row of scenes gives the row back.
pub proof fn lemma_children_round_trip<M: LosslessModel>(
    children: Seq<SceneView<M::V>>,
    depth: nat,
    data: Seq<u8>,
    pos: int,
)
    requires
        forall|i: int|
            0 <= i < children.len() ==> lossless_scene::<M>(#[trigger] children[i], depth),
        encoded_children::<M>(children) is Ok,
        holds_at(data, pos, encoded_children::<M>(children).unwrap()),
    ensures
        decoded_children::<M>(data, pos, children.len(), depth) == Ok::<
            (Seq<SceneView<M::V>>, int),
            Error,
        >((children, pos + encoded_children::<M>(children).unwrap().len())),
    decreases children,
{
    if children.len() == 0 {
        assert(children =~= Seq::empty());
    } else {
        let init = children.drop_last();
        let a = encoded_children::<M>(init).unwrap();
        let b = encoded_scene::<M>(children.last()).unwrap();
        lemma_holds_at_split(data, pos, a, b);
        assert forall|i: int| 0 <= i < init.len() implies lossless_scene::<M>(
            #[trigger] init[i],
            depth,
        ) by {
            assert(init[i] == children[i]);
        }
        lemma_children_round_trip::<M>(init, depth, data, pos);
        lemma_scene_round_trip::<M>(children.last(), depth, data, pos + a.len());
        assert(init.push(children.last()) =~= children);
    }
}

} // verus!
