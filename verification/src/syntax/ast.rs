//! The syntax tree.

use vstd::prelude::*;

verus! {

broadcast use vstd::std_specs::vec::axiom_vec_index_decreases;

/// The comparison operators.
#[derive(Clone, Copy, Debug, PartialEq, Eq, Structural)]
pub enum CompareOp {
    Equal,
    NotEqual,
    StrictEqual,
    StrictNotEqual,
}

/// A node of the syntax tree.
pub enum Node {
    /// `null`
    Null,
    /// `true` or `false`
    Bool(bool),
    /// A decimal integer literal.
    Number(i32),
    /// A string literal.
    Text(String),
    /// A name.
    Local(String),
    /// An object literal: names and values in order.
    Object(Vec<(String, Node)>),
    /// An array literal.
    Array(Vec<Node>),
    /// An arrow function: parameters and body.
    Arrow(Vec<String>, Box<Node>),
    /// `object.name`
    Field(Box<Node>, String),
    /// `object[key]`
    Index(Box<Node>, Box<Node>),
    /// `callee(arguments)`
    Call(Box<Node>, Vec<Node>),
    /// A comparison.
    Compare(CompareOp, Box<Node>, Box<Node>),
    /// Statements in order.
    Block(Vec<Node>),
}

/// Mathematical model of a [`Node`].
pub enum NodeView {
    Null,
    Bool(bool),
    Number(i32),
    Text(Seq<char>),
    Local(Seq<char>),
    Object(Seq<(Seq<char>, NodeView)>),
    Array(Seq<NodeView>),
    Arrow(Seq<Seq<char>>, Box<NodeView>),
    Field(Box<NodeView>, Seq<char>),
    Index(Box<NodeView>, Box<NodeView>),
    Call(Box<NodeView>, Seq<NodeView>),
    Compare(CompareOp, Box<NodeView>, Box<NodeView>),
    Block(Seq<NodeView>),
}

/// The texts of `names`, in order.
pub open spec fn texts(names: Seq<String>) -> Seq<Seq<char>>
    decreases names.len(),
{
    if names.len() == 0 {
        Seq::empty()
    } else {
        texts(names.drop_last()).push(names.last()@)
    }
}

/// The model of a node.
pub open spec fn node_model(n: Node) -> NodeView
    decreases n, 0nat,
{
    match n {
        Node::Null => NodeView::Null,
        Node::Bool(b) => NodeView::Bool(b),
        Node::Number(i) => NodeView::Number(i),
        Node::Text(s) => NodeView::Text(s@),
        Node::Local(s) => NodeView::Local(s@),
        Node::Object(members) => NodeView::Object(member_models(members@)),
        Node::Array(items) => NodeView::Array(node_models(items@)),
        Node::Arrow(parameters, body) => NodeView::Arrow(
            texts(parameters@),
            Box::new(node_model(*body)),
        ),
        Node::Field(object, name) => NodeView::Field(Box::new(node_model(*object)), name@),
        Node::Index(object, key) => NodeView::Index(
            Box::new(node_model(*object)),
            Box::new(node_model(*key)),
        ),
        Node::Call(callee, arguments) => NodeView::Call(
            Box::new(node_model(*callee)),
            node_models(arguments@),
        ),
        Node::Compare(op, left, right) => NodeView::Compare(
            op,
            Box::new(node_model(*left)),
            Box::new(node_model(*right)),
        ),
        Node::Block(statements) => NodeView::Block(node_models(statements@)),
    }
}

/// The models of `nodes`, in order.
pub open spec fn node_models(nodes: Seq<Node>) -> Seq<NodeView>
    decreases nodes, 1nat,
{
    if nodes.len() == 0 {
        Seq::empty()
    } else {
        node_models(nodes.drop_last()).push(node_model(nodes.last()))
    }
}

/// The names and models of `members`, in order.
pub open spec fn member_models(members: Seq<(String, Node)>) -> Seq<(Seq<char>, NodeView)>
    decreases members, 1nat,
{
    if members.len() == 0 {
        Seq::empty()
    } else {
        member_models(members.drop_last()).push((members.last().0@, node_model(members.last().1)))
    }
}

impl View for Node {
    type V = NodeView;

    open spec fn view(&self) -> NodeView {
        node_model(*self)
    }
}

/// The models of a list with one more node.
pub proof fn lemma_node_models_push(nodes: Seq<Node>, node: Node)
    ensures
        node_models(nodes.push(node)) == node_models(nodes).push(node@),
{
    assert(nodes.push(node).drop_last() =~= nodes);
}

/// The models of a list with one more member.
pub proof fn lemma_member_models_push(members: Seq<(String, Node)>, name: String, node: Node)
    ensures
        member_models(members.push((name, node))) == member_models(members).push((name@, node@)),
{
    assert(members.push((name, node)).drop_last() =~= members);
}

/// The texts of a list with one more name.
pub proof fn lemma_texts_push(names: Seq<String>, name: String)
    ensures
        texts(names.push(name)) == texts(names).push(name@),
{
    assert(names.push(name).drop_last() =~= names);
}

/// The models of a list go node by node.
pub proof fn lemma_node_models_index(nodes: Seq<Node>)
    ensures
        node_models(nodes).len() == nodes.len(),
        forall|i: int| 0 <= i < nodes.len() ==> (#[trigger] node_models(nodes)[i]) == nodes[i]@,
    decreases nodes.len(),
{
    if nodes.len() > 0 {
        lemma_node_models_index(nodes.drop_last());
    }
}

/// The models of members go member by member.
pub proof fn lemma_member_models_index(members: Seq<(String, Node)>)
    ensures
        member_models(members).len() == members.len(),
        forall|i: int|
            0 <= i < members.len() ==> (#[trigger] member_models(members)[i]) == (
                members[i].0@,
                members[i].1@,
            ),
    decreases members.len(),
{
    if members.len() > 0 {
        lemma_member_models_index(members.drop_last());
    }
}

/// The texts of names go name by name.
pub proof fn lemma_texts_index(names: Seq<String>)
    ensures
        texts(names).len() == names.len(),
        forall|i: int| 0 <= i < names.len() ==> (#[trigger] texts(names)[i]) == names[i]@,
    decreases names.len(),
{
    if names.len() > 0 {
        lemma_texts_index(names.drop_last());
    }
}

/// A copy of a list of names.
pub fn clone_names(names: &Vec<String>) -> (r: Vec<String>)
    ensures
        texts(r@) == texts(names@),
{
    let mut copy: Vec<String> = Vec::new();
    let mut i: usize = 0;
    proof {
        assert(names@.take(0) =~= Seq::<String>::empty());
    }
    while i < names.len()
        invariant
            i <= names@.len(),
            texts(copy@) == texts(names@.take(i as int)),
        decreases names.len() - i,
    {
        let name = names[i].clone();
        proof {
            lemma_texts_push(copy@, name);
            lemma_texts_push(names@.take(i as int), names@[i as int]);
            assert(names@.take(i + 1) =~= names@.take(i as int).push(names@[i as int]));
        }
        copy.push(name);
        i += 1;
    }
    assert(names@.take(names@.len() as int) =~= names@);
    copy
}

/// A copy of a list of nodes.
pub fn clone_nodes(nodes: &Vec<Node>) -> (r: Vec<Node>)
    ensures
        node_models(r@) == node_models(nodes@),
    decreases nodes, 1nat,
{
    let mut copy: Vec<Node> = Vec::new();
    let mut i: usize = 0;
    proof {
        assert(nodes@.take(0) =~= Seq::<Node>::empty());
    }
    while i < nodes.len()
        invariant
            i <= nodes@.len(),
            node_models(copy@) == node_models(nodes@.take(i as int)),
        decreases nodes.len() - i,
    {
        let node = nodes[i].clone();
        proof {
            lemma_node_models_push(copy@, node);
            lemma_node_models_push(nodes@.take(i as int), nodes@[i as int]);
            assert(nodes@.take(i + 1) =~= nodes@.take(i as int).push(nodes@[i as int]));
        }
        copy.push(node);
        i += 1;
    }
    assert(nodes@.take(nodes@.len() as int) =~= nodes@);
    copy
}

/// A copy of the members of an object literal.
pub fn clone_members(members: &Vec<(String, Node)>) -> (r: Vec<(String, Node)>)
    ensures
        member_models(r@) == member_models(members@),
    decreases members, 1nat,
{
    let mut copy: Vec<(String, Node)> = Vec::new();
    let mut i: usize = 0;
    proof {
        assert(members@.take(0) =~= Seq::<(String, Node)>::empty());
    }
    while i < members.len()
        invariant
            i <= members@.len(),
            member_models(copy@) == member_models(members@.take(i as int)),
        decreases members.len() - i,
    {
        let name = members[i].0.clone();
        let node = members[i].1.clone();
        proof {
            lemma_member_models_push(copy@, name, node);
            lemma_member_models_push(
                members@.take(i as int),
                members@[i as int].0,
                members@[i as int].1,
            );
            assert(members@.take(i + 1) =~= members@.take(i as int).push(members@[i as int]));
        }
        copy.push((name, node));
        i += 1;
    }
    assert(members@.take(members@.len() as int) =~= members@);
    copy
}

impl Clone for Node {
    fn clone(&self) -> (r: Self)
        ensures
            r@ == self@,
        decreases self, 0nat,
    {
        match self {
            Node::Null => Node::Null,
            Node::Bool(b) => Node::Bool(*b),
            Node::Number(i) => Node::Number(*i),
            Node::Text(s) => Node::Text(s.clone()),
            Node::Local(s) => Node::Local(s.clone()),
            Node::Object(members) => Node::Object(clone_members(members)),
            Node::Array(items) => Node::Array(clone_nodes(items)),
            Node::Arrow(parameters, body) => Node::Arrow(
                clone_names(parameters),
                Box::new((**body).clone()),
            ),
            Node::Field(object, name) => Node::Field(Box::new((**object).clone()), name.clone()),
            Node::Index(object, key) => Node::Index(
                Box::new((**object).clone()),
                Box::new((**key).clone()),
            ),
            Node::Call(callee, arguments) => Node::Call(
                Box::new((**callee).clone()),
                clone_nodes(arguments),
            ),
            Node::Compare(op, left, right) => Node::Compare(
                *op,
                Box::new((**left).clone()),
                Box::new((**right).clone()),
            ),
            Node::Block(statements) => Node::Block(clone_nodes(statements)),
        }
    }
}

} // verus!
