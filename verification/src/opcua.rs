//! The address space of the OPC UA endpoint as data: namespaces and a
//! forest of typed nodes, and the plan by which they are put into a
//! server.
//!
//! The plan is a list of operations. Namespaces come first, in ascending
//! order of their index; the nodes follow parent first, so that the parent
//! of a node is in the address space when the node is inserted.

use crate::error::{ActorError, ActorResult, ActorResultVoid, KernelError, Res, ServerError, VoidRes};
use crate::runtime::ActorServiceMessage;
use crate::text::{concat2, concat3, decimal, decimal_digits};
use vstd::prelude::*;

verus! {

/// The index of a namespace.
pub type NamespaceIndex = u16;

/// The URI of a namespace.
pub type NamespaceUri = String;

/// A namespace to register: the index it must get, and its URI.
#[derive(Debug)]
pub struct Namespace(pub NamespaceIndex, pub NamespaceUri);

/// What identifies a node within its namespace.
#[derive(Debug)]
pub enum Identifier {
    Numeric(u32),
    String(String),
}

/// The id of a node.
#[derive(Debug)]
pub struct NodeId {
    pub namespace: u16,
    pub identifier: Identifier,
}

/// A name qualified by a namespace.
#[derive(Debug)]
pub struct QualifiedName {
    pub namespace_index: u16,
    pub name: String,
}

/// A text with its locale.
#[derive(Debug)]
pub struct LocalizedText {
    pub locale: String,
    pub text: String,
}

/// The built-in data types.
#[derive(Debug, Clone, Copy, PartialEq, Eq, Structural)]
pub enum DataTypeId {
    Boolean,
    SByte,
    Byte,
    Int16,
    UInt16,
    Int32,
    UInt32,
    Int64,
    UInt64,
    String,
    DateTime,
    ByteString,
}

/// The value of a variable.
#[derive(Debug)]
pub enum Variant {
    Empty,
    Boolean(bool),
    SByte(i8),
    Byte(u8),
    Int16(i16),
    UInt16(u16),
    Int32(i32),
    UInt32(u32),
    Int64(i64),
    UInt64(u64),
    String(String),
}

/// What a node is.
#[derive(Debug)]
pub enum NodeDelegate {
    Folder,
    Object,
    Variable { value: Variant, data_type: DataTypeId, value_rank: i32 },
    Property { value: Variant, data_type: DataTypeId, value_rank: i32 },
    Reference { target: NodeId, reference_type: NodeId },
}

/// A node with the nodes below it.
#[derive(Debug)]
pub struct Node {
    pub node_id: NodeId,
    pub browse_name: QualifiedName,
    pub display_name: LocalizedText,
    pub delegate: NodeDelegate,
    pub children: Vec<Node>,
}

/// The namespaces and the forest of nodes of a server.
#[derive(Debug)]
pub struct ServerStructure {
    pub namespaces: Vec<Namespace>,
    pub nodes: Vec<Node>,
}

/// One operation on the address space of a server.
#[derive(Debug)]
pub enum AddressSpaceOp {
    /// Register `uri`; the server must answer with `index`.
    RegisterNamespace { index: u16, uri: String },
    AddFolder { node_id: NodeId, browse_name: QualifiedName, display_name: LocalizedText, parent: NodeId },
    AddObject {
        node_id: NodeId,
        browse_name: QualifiedName,
        display_name: LocalizedText,
        organized_by: NodeId,
    },
    AddVariable {
        node_id: NodeId,
        browse_name: QualifiedName,
        display_name: LocalizedText,
        value: Variant,
        data_type: DataTypeId,
        value_rank: i32,
        organized_by: NodeId,
    },
    AddProperty {
        node_id: NodeId,
        browse_name: QualifiedName,
        display_name: LocalizedText,
        value: Variant,
        data_type: DataTypeId,
        value_rank: i32,
        property_of: NodeId,
    },
    AddReference { source: NodeId, target: NodeId, reference_type: NodeId },
}

/// How the server answered an operation that inserts a node.
#[derive(Debug, Clone, Copy, PartialEq, Eq, Structural)]
pub enum OpOutcome {
    /// The node is in the address space.
    Inserted,
    /// The node was found invalid before it was inserted.
    Invalid,
    /// The address space refused the node.
    Rejected,
}

/// The numeric id of the root folder.
pub const ROOT_FOLDER: u32 = 84;

/// The numeric id of the objects folder.
pub const OBJECTS_FOLDER: u32 = 85;

/// The id of the root folder.
pub open spec fn root_folder() -> NodeId {
    NodeId { namespace: 0, identifier: Identifier::Numeric(84) }
}

/// The id of the objects folder.
pub open spec fn objects_folder() -> NodeId {
    NodeId { namespace: 0, identifier: Identifier::Numeric(85) }
}

impl Identifier {
    /// A copy of the identifier.
    pub fn duplicate(&self) -> (copy: Self)
        ensures
            copy == *self,
    {
        match self {
            Identifier::Numeric(n) => Identifier::Numeric(*n),
            Identifier::String(s) => Identifier::String(s.clone()),
        }
    }
}

/// The text of an identifier: `i=` and the number, or `s=` and the name.
pub open spec fn identifier_text(identifier: Identifier) -> Seq<char> {
    match identifier {
        Identifier::Numeric(n) => "i="@ + decimal_digits(n as nat),
        Identifier::String(s) => "s="@ + s@,
    }
}

/// The text of a node id: the identifier, behind `ns=`, the namespace and
/// `;` where the namespace is not 0.
pub open spec fn node_id_text(id: NodeId) -> Seq<char> {
    if id.namespace != 0 {
        "ns="@ + decimal_digits(id.namespace as nat) + ";"@ + identifier_text(id.identifier)
    } else {
        identifier_text(id.identifier)
    }
}

impl NodeId {
    /// The node with the number `value` in namespace `namespace`.
    pub fn new(namespace: u16, value: u32) -> (id: Self)
        ensures
            id == (NodeId { namespace, identifier: Identifier::Numeric(value) }),
    {
        NodeId { namespace, identifier: Identifier::Numeric(value) }
    }

    /// The node with the name `value` in namespace `namespace`.
    pub fn named(namespace: u16, value: &str) -> (id: Self)
        ensures
            id.namespace == namespace,
            id.identifier matches Identifier::String(s) && s@ == value@,
    {
        NodeId { namespace, identifier: Identifier::String(String::from_str(value)) }
    }

    /// The id of the root folder.
    pub fn root_folder_id() -> (id: Self)
        ensures
            id == root_folder(),
    {
        NodeId::new(0, ROOT_FOLDER)
    }

    /// The id of the objects folder.
    pub fn objects_folder_id() -> (id: Self)
        ensures
            id == objects_folder(),
    {
        NodeId::new(0, OBJECTS_FOLDER)
    }

    /// A copy of the id.
    pub fn duplicate(&self) -> (copy: Self)
        ensures
            copy == *self,
    {
        NodeId { namespace: self.namespace, identifier: self.identifier.duplicate() }
    }

    /// The id as text, such as `ns=1;i=4`.
    pub fn render(&self) -> (text: String)
        ensures
            text@ == node_id_text(*self),
    {
        let identifier = match &self.identifier {
            Identifier::Numeric(n) => concat2("i=", decimal(*n as u64).as_str()),
            Identifier::String(s) => concat2("s=", s.as_str()),
        };
        if self.namespace != 0 {
            let mut text = concat3("ns=", decimal(self.namespace as u64).as_str(), ";");
            text.append(identifier.as_str());
            text
        } else {
            identifier
        }
    }
}

impl QualifiedName {
    /// The name `name` in namespace `namespace_index`.
    pub fn new(namespace_index: u16, name: &str) -> (qualified: Self)
        ensures
            qualified.namespace_index == namespace_index,
            qualified.name@ == name@,
    {
        QualifiedName { namespace_index, name: String::from_str(name) }
    }

    /// A copy of the name.
    pub fn duplicate(&self) -> (copy: Self)
        ensures
            copy == *self,
    {
        QualifiedName { namespace_index: self.namespace_index, name: self.name.clone() }
    }
}

impl LocalizedText {
    /// The text `text` in the locale `locale`.
    pub fn new(locale: &str, text: &str) -> (localized: Self)
        ensures
            localized.locale@ == locale@,
            localized.text@ == text@,
    {
        LocalizedText { locale: String::from_str(locale), text: String::from_str(text) }
    }

    /// The text `text` without a locale.
    pub fn plain(text: &str) -> (localized: Self)
        ensures
            localized.locale@ == Seq::<char>::empty(),
            localized.text@ == text@,
    {
        LocalizedText { locale: String::new(), text: String::from_str(text) }
    }

    /// A copy of the text.
    pub fn duplicate(&self) -> (copy: Self)
        ensures
            copy == *self,
    {
        LocalizedText { locale: self.locale.clone(), text: self.text.clone() }
    }
}

impl Variant {
    /// A copy of the value.
    pub fn duplicate(&self) -> (copy: Self)
        ensures
            copy == *self,
    {
        match self {
            Variant::Empty => Variant::Empty,
            Variant::Boolean(v) => Variant::Boolean(*v),
            Variant::SByte(v) => Variant::SByte(*v),
            Variant::Byte(v) => Variant::Byte(*v),
            Variant::Int16(v) => Variant::Int16(*v),
            Variant::UInt16(v) => Variant::UInt16(*v),
            Variant::Int32(v) => Variant::Int32(*v),
            Variant::UInt32(v) => Variant::UInt32(*v),
            Variant::Int64(v) => Variant::Int64(*v),
            Variant::UInt64(v) => Variant::UInt64(*v),
            Variant::String(v) => Variant::String(v.clone()),
        }
    }
}

impl Namespace {
    /// A copy of the namespace.
    pub fn duplicate(&self) -> (copy: Self)
        ensures
            copy == *self,
    {
        Namespace(self.0, self.1.clone())
    }
}

/// `parent`, or `fallback` where there is none.
pub open spec fn parent_or(parent: Option<NodeId>, fallback: NodeId) -> NodeId {
    match parent {
        Some(id) => id,
        None => fallback,
    }
}

/// The operation that inserts `node` below `parent`. Without a parent an
/// object goes below the objects folder and every other node below the
/// root folder; a reference has no parent.
pub open spec fn node_op(node: Node, parent: Option<NodeId>) -> AddressSpaceOp {
    match node.delegate {
        NodeDelegate::Folder => AddressSpaceOp::AddFolder {
            node_id: node.node_id,
            browse_name: node.browse_name,
            display_name: node.display_name,
            parent: parent_or(parent, root_folder()),
        },
        NodeDelegate::Object => AddressSpaceOp::AddObject {
            node_id: node.node_id,
            browse_name: node.browse_name,
            display_name: node.display_name,
            organized_by: parent_or(parent, objects_folder()),
        },
        NodeDelegate::Variable { value, data_type, value_rank } => AddressSpaceOp::AddVariable {
            node_id: node.node_id,
            browse_name: node.browse_name,
            display_name: node.display_name,
            value,
            data_type,
            value_rank,
            organized_by: parent_or(parent, root_folder()),
        },
        NodeDelegate::Property { value, data_type, value_rank } => AddressSpaceOp::AddProperty {
            node_id: node.node_id,
            browse_name: node.browse_name,
            display_name: node.display_name,
            value,
            data_type,
            value_rank,
            property_of: parent_or(parent, root_folder()),
        },
        NodeDelegate::Reference { target, reference_type } => AddressSpaceOp::AddReference {
            source: node.node_id,
            target,
            reference_type,
        },
    }
}

/// The operations for `node` and all that is below it: the node itself,
/// then its children from first to last, each with all that is below it.
pub open spec fn node_plan(node: Node, parent: Option<NodeId>) -> Seq<AddressSpaceOp>
    decreases node, 1nat,
{
    seq![node_op(node, parent)] + children_plan(node, node.children@.len())
}

/// The operations for the first `count` children of `node`.
pub open spec fn children_plan(node: Node, count: nat) -> Seq<AddressSpaceOp>
    decreases node, 0nat, count,
{
    if count == 0 || count > node.children@.len() {
        Seq::empty()
    } else {
        children_plan(node, (count - 1) as nat) + node_plan(
            node.children@[count - 1],
            Some(node.node_id),
        )
    }
}

/// The operations for the first `count` roots of a forest.
pub open spec fn forest_plan(roots: Seq<Node>, count: nat) -> Seq<AddressSpaceOp>
    decreases count,
{
    if count == 0 || count > roots.len() {
        Seq::empty()
    } else {
        forest_plan(roots, (count - 1) as nat) + node_plan(roots[count - 1], None)
    }
}

impl Node {
    /// Appends to `ops` the operations for `node` and all that is below
    /// it, parent first.
    pub fn process(node: &Node, parent: Option<&NodeId>, ops: &mut Vec<AddressSpaceOp>)
        ensures
            final(ops)@ == old(ops)@ + node_plan(
                *node,
                match parent {
                    Some(id) => Some(*id),
                    None => None,
                },
            ),
        decreases node,
    {
        let ghost parent_id: Option<NodeId> = match parent {
            Some(id) => Some(*id),
            None => None,
        };
        let op = match &node.delegate {
            NodeDelegate::Folder => AddressSpaceOp::AddFolder {
                node_id: node.node_id.duplicate(),
                browse_name: node.browse_name.duplicate(),
                display_name: node.display_name.duplicate(),
                parent: match parent {
                    Some(id) => id.duplicate(),
                    None => NodeId::root_folder_id(),
                },
            },
            NodeDelegate::Object => AddressSpaceOp::AddObject {
                node_id: node.node_id.duplicate(),
                browse_name: node.browse_name.duplicate(),
                display_name: node.display_name.duplicate(),
                organized_by: match parent {
                    Some(id) => id.duplicate(),
                    None => NodeId::objects_folder_id(),
                },
            },
            NodeDelegate::Variable { value, data_type, value_rank } => AddressSpaceOp::AddVariable {
                node_id: node.node_id.duplicate(),
                browse_name: node.browse_name.duplicate(),
                display_name: node.display_name.duplicate(),
                value: value.duplicate(),
                data_type: *data_type,
                value_rank: *value_rank,
                organized_by: match parent {
                    Some(id) => id.duplicate(),
                    None => NodeId::root_folder_id(),
                },
            },
            NodeDelegate::Property { value, data_type, value_rank } => AddressSpaceOp::AddProperty {
                node_id: node.node_id.duplicate(),
                browse_name: node.browse_name.duplicate(),
                display_name: node.display_name.duplicate(),
                value: value.duplicate(),
                data_type: *data_type,
                value_rank: *value_rank,
                property_of: match parent {
                    Some(id) => id.duplicate(),
                    None => NodeId::root_folder_id(),
                },
            },
            NodeDelegate::Reference { target, reference_type } => AddressSpaceOp::AddReference {
                source: node.node_id.duplicate(),
                target: target.duplicate(),
                reference_type: reference_type.duplicate(),
            },
        };
        assert(op == node_op(*node, parent_id));
        ops.push(op);
        let mut i: usize = 0;
        while i < node.children.len()
            invariant
                i <= node.children@.len(),
                ops@ == old(ops)@ + seq![node_op(*node, parent_id)] + children_plan(*node, i as nat),
            decreases node.children@.len() - i,
        {
            let ghost before = ops@;
            Node::process(&node.children[i], Some(&node.node_id), ops);
            proof {
                assert(ops@ =~= old(ops)@ + seq![node_op(*node, parent_id)] + children_plan(
                    *node,
                    (i + 1) as nat,
                ));
            }
            i += 1;
        }
        assert(ops@ =~= old(ops)@ + node_plan(*node, parent_id));
    }

    /// Puts `child` behind the children of the node.
    pub fn add_child(&mut self, child: Node)
        ensures
            final(self).children@ == old(self).children@.push(child),
            final(self).node_id == old(self).node_id,
            final(self).browse_name == old(self).browse_name,
            final(self).display_name == old(self).display_name,
            final(self).delegate == old(self).delegate,
    {
        self.children.push(child);
    }

    /// A folder with the given children.
    pub fn folder(
        node_id: NodeId,
        browse_name: QualifiedName,
        display_name: LocalizedText,
        children: Vec<Node>,
    ) -> (node: Self)
        ensures
            node == (Node { node_id, browse_name, display_name, delegate: NodeDelegate::Folder, children }),
    {
        Node { node_id, browse_name, display_name, delegate: NodeDelegate::Folder, children }
    }

    /// An object with the given children.
    pub fn object(
        node_id: NodeId,
        browse_name: QualifiedName,
        display_name: LocalizedText,
        children: Vec<Node>,
    ) -> (node: Self)
        ensures
            node == (Node { node_id, browse_name, display_name, delegate: NodeDelegate::Object, children }),
    {
        Node { node_id, browse_name, display_name, delegate: NodeDelegate::Object, children }
    }

    /// A variable without children.
    pub fn variable(
        node_id: NodeId,
        browse_name: QualifiedName,
        display_name: LocalizedText,
        data_type: DataTypeId,
        value_rank: i32,
        value: Variant,
    ) -> (node: Self)
        ensures
            node.node_id == node_id,
            node.browse_name == browse_name,
            node.display_name == display_name,
            node.delegate == (NodeDelegate::Variable { value, data_type, value_rank }),
            node.children@.len() == 0,
    {
        Node {
            node_id,
            browse_name,
            display_name,
            delegate: NodeDelegate::Variable { value, data_type, value_rank },
            children: Vec::new(),
        }
    }

    /// A property without children.
    pub fn property(
        node_id: NodeId,
        browse_name: QualifiedName,
        display_name: LocalizedText,
        data_type: DataTypeId,
        value_rank: i32,
        value: Variant,
    ) -> (node: Self)
        ensures
            node.node_id == node_id,
            node.browse_name == browse_name,
            node.display_name == display_name,
            node.delegate == (NodeDelegate::Property { value, data_type, value_rank }),
            node.children@.len() == 0,
    {
        Node {
            node_id,
            browse_name,
            display_name,
            delegate: NodeDelegate::Property { value, data_type, value_rank },
            children: Vec::new(),
        }
    }
}

/// The node that an operation puts into the address space.
pub open spec fn op_subject(op: AddressSpaceOp) -> Option<NodeId> {
    match op {
        AddressSpaceOp::RegisterNamespace { .. } => None,
        AddressSpaceOp::AddFolder { node_id, .. } => Some(node_id),
        AddressSpaceOp::AddObject { node_id, .. } => Some(node_id),
        AddressSpaceOp::AddVariable { node_id, .. } => Some(node_id),
        AddressSpaceOp::AddProperty { node_id, .. } => Some(node_id),
        AddressSpaceOp::AddReference { source, .. } => Some(source),
    }
}

/// The node below which an operation puts its node.
pub open spec fn op_parent(op: AddressSpaceOp) -> Option<NodeId> {
    match op {
        AddressSpaceOp::RegisterNamespace { .. } => None,
        AddressSpaceOp::AddFolder { parent, .. } => Some(parent),
        AddressSpaceOp::AddObject { organized_by, .. } => Some(organized_by),
        AddressSpaceOp::AddVariable { organized_by, .. } => Some(organized_by),
        AddressSpaceOp::AddProperty { property_of, .. } => Some(property_of),
        AddressSpaceOp::AddReference { .. } => None,
    }
}

/// Whether the operation at index `k` of `plan` finds its parent put into
/// the address space by an earlier operation of `plan`.
pub open spec fn parent_comes_first(plan: Seq<AddressSpaceOp>, k: int) -> bool {
    op_parent(plan[k]) is Some ==> exists|j: int|
        0 <= j < k && op_subject(plan[j]) == op_parent(plan[k])
}

/// Among the operations for the children of a node, each finds its parent
/// earlier among them, or its parent is the node itself.
proof fn lemma_children_parents_first(node: Node, count: nat, m: int)
    requires
        count <= node.children@.len(),
        0 <= m < children_plan(node, count).len(),
    ensures
        op_parent(children_plan(node, count)[m]) == Some(node.node_id) || parent_comes_first(
            children_plan(node, count),
            m,
        ),
    decreases node, 0nat, count,
{
    let plan = children_plan(node, count);
    let front = children_plan(node, (count - 1) as nat);
    let child = node.children@[count - 1];
    let tail = node_plan(child, Some(node.node_id));
    if m < front.len() {
        lemma_children_parents_first(node, (count - 1) as nat, m);
        assert(plan[m] == front[m]);
        if op_parent(front[m]) != Some(node.node_id) && op_parent(front[m]) is Some {
            let j = choose|j: int| 0 <= j < m && op_subject(front[j]) == op_parent(front[m]);
            assert(plan[j] == front[j]);
        }
    } else {
        let k = m - front.len();
        assert(plan[m] == tail[k]);
        if k > 0 {
            lemma_parents_first(child, Some(node.node_id), k);
            if op_parent(tail[k]) is Some {
                let j = choose|j: int| 0 <= j < k && op_subject(tail[j]) == op_parent(tail[k]);
                assert(plan[front.len() + j] == tail[j]);
            }
        } else {
            assert(tail[0] == node_op(child, Some(node.node_id)));
        }
    }
}

/// Parent first: in the plan for a node and all that is below it, every
/// operation but the first finds its parent put into the address space by
/// an earlier operation.
pub proof fn lemma_parents_first(node: Node, parent: Option<NodeId>, k: int)
    requires
        0 < k < node_plan(node, parent).len(),
    ensures
        node_plan(node, parent)[0] == node_op(node, parent),
        op_subject(node_plan(node, parent)[0]) == Some(node.node_id),
        parent_comes_first(node_plan(node, parent), k),
    decreases node, 1nat,
{
    let plan = node_plan(node, parent);
    let below = children_plan(node, node.children@.len());
    assert(plan[k] == below[k - 1]);
    lemma_children_parents_first(node, node.children@.len(), k - 1);
    if op_parent(below[k - 1]) == Some(node.node_id) {
        assert(op_subject(plan[0]) == op_parent(plan[k]));
    } else if op_parent(below[k - 1]) is Some {
        let j = choose|j: int|
            0 <= j < k - 1 && op_subject(below[j]) == op_parent(below[k - 1]);
        assert(plan[j + 1] == below[j]);
    }
}

/// What is wrong with a namespace: index 0 is reserved, and the URI must
/// not be empty.
pub open spec fn namespace_fault(namespace: Namespace) -> Option<Seq<char>> {
    if namespace.0 == 0 {
        Some("Namespace index cannot be 0"@)
    } else if namespace.1@.len() == 0 {
        Some("Namespace URI  cannot be empty"@)
    } else {
        None
    }
}

/// What is wrong with the first namespace that has a fault.
pub open spec fn first_fault(namespaces: Seq<Namespace>) -> Option<Seq<char>>
    decreases namespaces.len(),
{
    if namespaces.len() == 0 {
        None
    } else {
        match namespace_fault(namespaces[0]) {
            Some(text) => Some(text),
            None => first_fault(namespaces.drop_first()),
        }
    }
}

/// The namespaces are without fault exactly when none of them has the
/// reserved index 0 or an empty URI.
pub proof fn lemma_first_fault(namespaces: Seq<Namespace>)
    ensures
        first_fault(namespaces) is None <==> forall|i: int|
            0 <= i < namespaces.len() ==> (#[trigger] namespaces[i]).0 != 0 && namespaces[i].1@.len()
                > 0,
    decreases namespaces.len(),
{
    if namespaces.len() > 0 {
        let rest = namespaces.drop_first();
        lemma_first_fault(rest);
        if first_fault(namespaces) is None {
            assert forall|i: int| 0 <= i < namespaces.len() implies (#[trigger] namespaces[i]).0
                != 0 && namespaces[i].1@.len() > 0 by {
                if i > 0 {
                    assert(rest[i - 1] == namespaces[i]);
                }
            }
        } else if namespace_fault(namespaces[0]) is None {
            let i = choose|i: int|
                0 <= i < rest.len() && !((#[trigger] rest[i]).0 != 0 && rest[i].1@.len() > 0);
            assert(namespaces[i + 1] == rest[i]);
        }
    }
}

/// `sorted` with `namespace` behind the last namespace whose index is not
/// above its own.
pub open spec fn insert_by_index(sorted: Seq<Namespace>, namespace: Namespace) -> Seq<Namespace>
    decreases sorted.len(),
{
    if sorted.len() == 0 {
        seq![namespace]
    } else if sorted.last().0 <= namespace.0 {
        sorted.push(namespace)
    } else {
        insert_by_index(sorted.drop_last(), namespace).push(sorted.last())
    }
}

/// The namespaces in ascending order of their index; namespaces with one
/// index keep the order in which they were given.
pub open spec fn ascending_order(namespaces: Seq<Namespace>) -> Seq<Namespace>
    decreases namespaces.len(),
{
    if namespaces.len() == 0 {
        Seq::empty()
    } else {
        insert_by_index(ascending_order(namespaces.drop_last()), namespaces.last())
    }
}

/// No namespace has a smaller index than one in front of it.
pub open spec fn is_ascending(namespaces: Seq<Namespace>) -> bool {
    forall|i: int, j: int| 0 <= i <= j < namespaces.len() ==> namespaces[i].0 <= namespaces[j].0
}

/// Where to put `namespace`: all behind `at` have a larger index, and
/// what stands in front of `at` has none.
proof fn lemma_insert_at(sorted: Seq<Namespace>, namespace: Namespace, at: int)
    requires
        0 <= at <= sorted.len(),
        forall|j: int| at <= j < sorted.len() ==> sorted[j].0 > namespace.0,
        at > 0 ==> sorted[at - 1].0 <= namespace.0,
    ensures
        insert_by_index(sorted, namespace) == sorted.insert(at, namespace),
    decreases sorted.len(),
{
    if sorted.len() == 0 {
        assert(sorted.insert(0, namespace) =~= seq![namespace]);
    } else if at == sorted.len() {
        assert(sorted.insert(at, namespace) =~= sorted.push(namespace));
    } else {
        lemma_insert_at(sorted.drop_last(), namespace, at);
        assert(sorted.insert(at, namespace) =~= sorted.drop_last().insert(at, namespace).push(
            sorted.last(),
        ));
    }
}

/// Inserting by index keeps an ascending list ascending and adds the one
/// namespace to it.
proof fn lemma_insert_by_index(sorted: Seq<Namespace>, namespace: Namespace)
    requires
        is_ascending(sorted),
    ensures
        is_ascending(insert_by_index(sorted, namespace)),
        insert_by_index(sorted, namespace).to_multiset() == sorted.to_multiset().insert(namespace),
        insert_by_index(sorted, namespace).len() == sorted.len() + 1,
        forall|i: int|
            0 <= i < sorted.len() + 1 ==> (#[trigger] insert_by_index(sorted, namespace)[i])
                == namespace || sorted.contains(insert_by_index(sorted, namespace)[i]),
    decreases sorted.len(),
{
    broadcast use vstd::seq_lib::group_to_multiset_ensures;

    let out = insert_by_index(sorted, namespace);
    if sorted.len() == 0 {
        assert(seq![namespace] =~= Seq::<Namespace>::empty().push(namespace));
    } else if sorted.last().0 <= namespace.0 {
        assert forall|i: int| 0 <= i < sorted.len() + 1 implies (#[trigger] out[i]) == namespace
            || sorted.contains(out[i]) by {
            if i < sorted.len() {
                assert(out[i] == sorted[i]);
            }
        }
    } else {
        let front = sorted.drop_last();
        assert(is_ascending(front));
        lemma_insert_by_index(front, namespace);
        let inner = insert_by_index(front, namespace);
        assert(sorted =~= front.push(sorted.last()));
        assert forall|i: int, j: int| 0 <= i <= j < out.len() implies out[i].0 <= out[j].0 by {
            if j == out.len() - 1 && i < j {
                assert(inner[i] == namespace || front.contains(inner[i]));
                if front.contains(inner[i]) {
                    let k = choose|k: int| 0 <= k < front.len() && front[k] == inner[i];
                    assert(sorted[k] == front[k]);
                }
            }
        }
        assert(out.to_multiset() =~= sorted.to_multiset().insert(namespace));
        assert forall|i: int| 0 <= i < sorted.len() + 1 implies (#[trigger] out[i]) == namespace
            || sorted.contains(out[i]) by {
            if i < inner.len() {
                assert(out[i] == inner[i]);
                if front.contains(inner[i]) {
                    let k = choose|k: int| 0 <= k < front.len() && front[k] == inner[i];
                    assert(sorted[k] == front[k]);
                }
            } else {
                assert(out[i] == sorted.last());
                assert(sorted[sorted.len() - 1] == sorted.last());
            }
        }
    }
}

/// The ascending order holds the namespaces that were given, each as
/// often as it was given, and no index is smaller than one in front of it.
pub proof fn lemma_ascending_order(namespaces: Seq<Namespace>)
    ensures
        is_ascending(ascending_order(namespaces)),
        ascending_order(namespaces).to_multiset() == namespaces.to_multiset(),
        ascending_order(namespaces).len() == namespaces.len(),
    decreases namespaces.len(),
{
    broadcast use vstd::seq_lib::group_to_multiset_ensures;

    if namespaces.len() == 0 {
        assert(namespaces =~= Seq::<Namespace>::empty());
    } else {
        lemma_ascending_order(namespaces.drop_last());
        lemma_insert_by_index(ascending_order(namespaces.drop_last()), namespaces.last());
        assert(namespaces =~= namespaces.drop_last().push(namespaces.last()));
    }
}

/// The operations that register `sorted`, in order.
pub open spec fn registrations(sorted: Seq<Namespace>) -> Seq<AddressSpaceOp> {
    Seq::new(
        sorted.len(),
        |i: int| AddressSpaceOp::RegisterNamespace { index: sorted[i].0, uri: sorted[i].1 },
    )
}

/// The whole plan for a structure: the namespaces in ascending order of
/// their index, then the trees of the forest from first to last.
pub open spec fn structure_plan(structure: ServerStructure) -> Seq<AddressSpaceOp> {
    registrations(ascending_order(structure.namespaces@)) + forest_plan(
        structure.nodes@,
        structure.nodes@.len(),
    )
}

impl ServerStructure {
    /// A structure of the given namespaces and nodes.
    pub fn new(namespaces: Vec<Namespace>, nodes: Vec<Node>) -> (structure: Self)
        ensures
            structure.namespaces == namespaces,
            structure.nodes == nodes,
    {
        ServerStructure { namespaces, nodes }
    }

    /// The first fault among the namespaces, as a client error.
    pub fn validate(&self) -> (checked: VoidRes)
        ensures
            match checked {
                Ok(()) => first_fault(self.namespaces@) is None,
                Err(error) => error matches KernelError::ServerError(ServerError::ClientError(m))
                    && first_fault(self.namespaces@) == Some(m@),
            },
    {
        let mut i: usize = 0;
        assert(self.namespaces@.skip(0) =~= self.namespaces@);
        while i < self.namespaces.len()
            invariant
                i <= self.namespaces@.len(),
                first_fault(self.namespaces@) == first_fault(self.namespaces@.skip(i as int)),
            decreases self.namespaces@.len() - i,
        {
            let ghost rest = self.namespaces@.skip(i as int);
            assert(rest[0] == self.namespaces@[i as int]);
            assert(rest.drop_first() =~= self.namespaces@.skip(i + 1));
            if self.namespaces[i].0 == 0 {
                return Err(KernelError::client("Namespace index cannot be 0"));
            }
            if self.namespaces[i].1.as_str().unicode_len() == 0 {
                return Err(KernelError::client("Namespace URI  cannot be empty"));
            }
            i += 1;
        }
        Ok(())
    }

    /// The namespaces in ascending order of their index.
    pub fn sorted_namespaces(&self) -> (sorted: Vec<Namespace>)
        ensures
            sorted@ == ascending_order(self.namespaces@),
    {
        let mut sorted: Vec<Namespace> = Vec::new();
        let mut i: usize = 0;
        assert(self.namespaces@.take(0) =~= Seq::<Namespace>::empty());
        while i < self.namespaces.len()
            invariant
                i <= self.namespaces@.len(),
                sorted@ == ascending_order(self.namespaces@.take(i as int)),
            decreases self.namespaces@.len() - i,
        {
            let namespace = self.namespaces[i].duplicate();
            let mut at: usize = sorted.len();
            while at > 0 && sorted[at - 1].0 > namespace.0
                invariant
                    at <= sorted@.len(),
                    forall|j: int| at <= j < sorted@.len() ==> sorted@[j].0 > namespace.0,
                decreases at,
            {
                at -= 1;
            }
            proof {
                lemma_insert_at(sorted@, namespace, at as int);
                assert(self.namespaces@.take(i + 1).drop_last() =~= self.namespaces@.take(i as int));
                assert(self.namespaces@.take(i + 1).last() == self.namespaces@[i as int]);
            }
            sorted.insert(at, namespace);
            i += 1;
        }
        assert(self.namespaces@.take(self.namespaces@.len() as int) =~= self.namespaces@);
        sorted
    }

    /// The plan by which the structure is put into a server: an error for
    /// the first faulty namespace, or the operations in their order.
    pub fn process_server(&self) -> (plan: Res<Vec<AddressSpaceOp>>)
        ensures
            match plan {
                Ok(ops) => first_fault(self.namespaces@) is None && ops@ == structure_plan(*self),
                Err(error) => error matches KernelError::ServerError(ServerError::ClientError(m))
                    && first_fault(self.namespaces@) == Some(m@),
            },
    {
        match self.validate() {
            Ok(()) => {},
            Err(error) => {
                return Err(error);
            },
        }
        let sorted = self.sorted_namespaces();
        let mut ops: Vec<AddressSpaceOp> = Vec::new();
        let mut i: usize = 0;
        while i < sorted.len()
            invariant
                i <= sorted@.len(),
                ops@ == registrations(sorted@).take(i as int),
            decreases sorted@.len() - i,
        {
            ops.push(
                AddressSpaceOp::RegisterNamespace { index: sorted[i].0, uri: sorted[i].1.clone() },
            );
            assert(ops@ =~= registrations(sorted@).take(i + 1));
            i += 1;
        }
        assert(registrations(sorted@).take(sorted@.len() as int) =~= registrations(sorted@));
        let mut k: usize = 0;
        while k < self.nodes.len()
            invariant
                k <= self.nodes@.len(),
                ops@ == registrations(sorted@) + forest_plan(self.nodes@, k as nat),
            decreases self.nodes@.len() - k,
        {
            Node::process(&self.nodes[k], None, &mut ops);
            assert(ops@ =~= registrations(sorted@) + forest_plan(self.nodes@, (k + 1) as nat));
            k += 1;
        }
        Ok(ops)
    }
}

impl Default for ServerStructure {
    fn default() -> (structure: Self)
        ensures
            structure.namespaces@.len() == 0,
            structure.nodes@.len() == 0,
    {
        ServerStructure { namespaces: Vec::new(), nodes: Vec::new() }
    }
}

/// The message for a node that could not be inserted, in front of its id.
pub open spec fn failure_prefix(op: AddressSpaceOp, outcome: OpOutcome) -> Option<Seq<char>> {
    if outcome == OpOutcome::Inserted {
        None
    } else {
        match op {
            AddressSpaceOp::RegisterNamespace { .. } => None,
            AddressSpaceOp::AddReference { .. } => None,
            AddressSpaceOp::AddFolder { .. } => Some("Failed to insert folder: "@),
            AddressSpaceOp::AddObject { .. } => if outcome == OpOutcome::Invalid {
                Some("Invalid object type: "@)
            } else {
                Some("Failed to insert object: "@)
            },
            AddressSpaceOp::AddVariable { .. } => if outcome == OpOutcome::Invalid {
                Some("Invalid variable type: "@)
            } else {
                Some("Failed to insert variable type: "@)
            },
            AddressSpaceOp::AddProperty { .. } => if outcome == OpOutcome::Invalid {
                Some("Invalid property type: "@)
            } else {
                Some("Failed to insert property type: "@)
            },
        }
    }
}

/// The message for a node that could not be inserted.
pub open spec fn failure_text(op: AddressSpaceOp, outcome: OpOutcome) -> Option<Seq<char>> {
    match (failure_prefix(op, outcome), op_subject(op)) {
        (Some(prefix), Some(id)) => Some(prefix + node_id_text(id)),
        _ => None,
    }
}

/// The message for a namespace that the server registered under another
/// index than the one asked for.
pub open spec fn mismatch_text(index: u16, answered: u16) -> Seq<char> {
    "Namespace index mismatch "@ + decimal_digits(index as nat) + " != "@ + decimal_digits(
        answered as nat,
    )
}

/// What the server's answer to a registration means: nothing where it
/// answered with the index asked for, else the message of the error.
pub open spec fn registration_fault(index: u16, answer: Option<u16>) -> Option<Seq<char>> {
    match answer {
        None => Some("Can not register namespace"@),
        Some(answered) => if answered == index {
            None
        } else {
            Some(mismatch_text(index, answered))
        },
    }
}

/// Checks the server's answer to the registration of a namespace: it
/// must be the index that was asked for.
pub fn check_registration(index: u16, answer: Option<u16>) -> (checked: VoidRes)
    ensures
        match checked {
            Ok(()) => registration_fault(index, answer) is None,
            Err(error) => error matches KernelError::ServerError(ServerError::ClientError(m))
                && registration_fault(index, answer) == Some(m@),
        },
{
    match answer {
        None => Err(KernelError::client("Can not register namespace")),
        Some(answered) => {
            if answered == index {
                Ok(())
            } else {
                let mut text = concat3(
                    "Namespace index mismatch ",
                    decimal(index as u64).as_str(),
                    " != ",
                );
                text.append(decimal(answered as u64).as_str());
                Err(KernelError::client(text.as_str()))
            }
        },
    }
}

impl AddressSpaceOp {
    /// Checks the server's answer to an operation that inserts a node. An
    /// answer other than `Inserted` is a client error that names the node;
    /// a reference cannot fail.
    pub fn check(&self, outcome: OpOutcome) -> (checked: VoidRes)
        ensures
            match checked {
                Ok(()) => failure_text(*self, outcome) is None,
                Err(error) => error matches KernelError::ServerError(ServerError::ClientError(m))
                    && failure_text(*self, outcome) == Some(m@),
            },
    {
        if outcome == OpOutcome::Inserted {
            return Ok(());
        }
        let invalid = outcome == OpOutcome::Invalid;
        match self {
            AddressSpaceOp::RegisterNamespace { .. } => Ok(()),
            AddressSpaceOp::AddReference { .. } => Ok(()),
            AddressSpaceOp::AddFolder { node_id, .. } => Err(
                KernelError::client(
                    concat2("Failed to insert folder: ", node_id.render().as_str()).as_str(),
                ),
            ),
            AddressSpaceOp::AddObject { node_id, .. } => {
                let prefix = if invalid {
                    "Invalid object type: "
                } else {
                    "Failed to insert object: "
                };
                Err(KernelError::client(concat2(prefix, node_id.render().as_str()).as_str()))
            },
            AddressSpaceOp::AddVariable { node_id, .. } => {
                let prefix = if invalid {
                    "Invalid variable type: "
                } else {
                    "Failed to insert variable type: "
                };
                Err(KernelError::client(concat2(prefix, node_id.render().as_str()).as_str()))
            },
            AddressSpaceOp::AddProperty { node_id, .. } => {
                let prefix = if invalid {
                    "Invalid property type: "
                } else {
                    "Failed to insert property type: "
                };
                Err(KernelError::client(concat2(prefix, node_id.render().as_str()).as_str()))
            },
        }
    }
}

/// How the server answered an operation of a plan.
#[derive(Debug, Clone, Copy, PartialEq, Eq, Structural)]
pub enum OpAnswer {
    /// The answer to the registration of a namespace: the index it got,
    /// or none where the server refused.
    Registered(Option<u16>),
    /// The answer to the insertion of a node or a reference.
    Node(OpOutcome),
}

/// What is wrong with the answer of the server to an operation of a
/// plan. A namespace must be answered with the index asked for, a node
/// must be inserted; an answer of the other kind is taken for a refusal.
pub open spec fn answer_fault(op: AddressSpaceOp, answer: OpAnswer) -> Option<Seq<char>> {
    match op {
        AddressSpaceOp::RegisterNamespace { index, .. } => match answer {
            OpAnswer::Registered(got) => registration_fault(index, got),
            OpAnswer::Node(_) => registration_fault(index, None),
        },
        _ => match answer {
            OpAnswer::Node(outcome) => failure_text(op, outcome),
            OpAnswer::Registered(_) => failure_text(op, OpOutcome::Rejected),
        },
    }
}

/// Checks the answer of the server to an operation of a plan while the
/// server is built: a fault is a startup error, for the server does not
/// start with an address space that differs from its plan.
pub fn startup_check(op: &AddressSpaceOp, answer: OpAnswer) -> (checked: ActorResultVoid)
    ensures
        match checked {
            Ok(()) => answer_fault(*op, answer) is None,
            Err(error) => error matches ActorError::StartupError(m) && answer_fault(*op, answer)
                == Some(m@),
        },
{
    let checked = match op {
        AddressSpaceOp::RegisterNamespace { index, .. } => match answer {
            OpAnswer::Registered(got) => check_registration(*index, got),
            OpAnswer::Node(_) => check_registration(*index, None),
        },
        _ => match answer {
            OpAnswer::Node(outcome) => op.check(outcome),
            OpAnswer::Registered(_) => op.check(OpOutcome::Rejected),
        },
    };
    match checked {
        Ok(()) => Ok(()),
        Err(KernelError::ServerError(ServerError::ClientError(m))) => Err(
            ActorError::StartupError(m),
        ),
        Err(other) => Err(ActorError::from(other)),
    }
}

/// The URL of the endpoint of a server.
pub open spec fn endpoint_text(host: Seq<char>, port: u16) -> Seq<char> {
    "opc.tcp://"@ + host + ":"@ + decimal_digits(port as nat)
}

/// The URL of the endpoint of a server.
pub fn endpoint_url(host: &str, port: u16) -> (url: String)
    ensures
        url@ == endpoint_text(host@, port),
{
    let mut url = concat3("opc.tcp://", host, ":");
    url.append(decimal(port as u64).as_str());
    url
}

/// The directory of the keys and certificates of a server.
pub fn pki_dir() -> (dir: String)
    ensures
        dir@ == "./pki-server"@,
{
    String::from_str("./pki-server")
}

/// The message that asks the server to write a variable.
#[derive(Debug)]
pub struct UpdateValueMessage {
    pub node_id: NodeId,
    pub value: Variant,
}

/// The message of a failed start for want of a configuration.
pub open spec fn config_fault(key: Seq<char>) -> Seq<char> {
    "Failed to load server config "@ + key
}

/// What the driver of an OPC UA server is to do.
#[derive(Debug, Clone, Copy, PartialEq, Eq, Structural)]
pub enum OpcuaAction {
    /// Nothing: the message did not apply.
    Nothing,
    /// Spawn the task that serves the address space.
    Serve,
    /// Abort the serving task.
    Abort,
}

/// Whether `i` is the index of the first operation of `plan` whose answer
/// among `answers` has a fault.
pub open spec fn is_first_fault(plan: Seq<AddressSpaceOp>, answers: Seq<OpAnswer>, i: int) -> bool {
    &&& 0 <= i < plan.len()
    &&& i < answers.len()
    &&& answer_fault(plan[i], answers[i]) is Some
    &&& forall|j: int| 0 <= j < i ==> answer_fault(plan[j], #[trigger] answers[j]) is None
}

/// Number of operations of `plan` that have an answer among `answers`.
pub open spec fn answered(plan: Seq<AddressSpaceOp>, answers: Seq<OpAnswer>) -> int {
    if plan.len() <= answers.len() {
        plan.len() as int
    } else {
        answers.len() as int
    }
}

/// Holds a plan against the answers that the server gave to its
/// operations, in order, and stops at the first fault: the result is the
/// index of the operation that failed with its startup error, so that no
/// later operation counts as carried out, or the number of operations that
/// were answered, all of them without fault.
pub fn run_plan(plan: &Vec<AddressSpaceOp>, answers: &Vec<OpAnswer>) -> (outcome: Result<
    usize,
    (usize, ActorError),
>)
    ensures
        match outcome {
            Ok(count) => {
                &&& count == answered(plan@, answers@)
                &&& forall|j: int|
                    0 <= j < count ==> answer_fault(plan@[j], #[trigger] answers@[j]) is None
            },
            Err((at, error)) => {
                &&& is_first_fault(plan@, answers@, at as int)
                &&& error matches ActorError::StartupError(m)
                &&& answer_fault(plan@[at as int], answers@[at as int]) == Some(m@)
            },
        },
{
    let mut i: usize = 0;
    while i < plan.len() && i < answers.len()
        invariant
            i <= plan@.len(),
            i <= answers@.len(),
            forall|j: int| 0 <= j < i ==> answer_fault(plan@[j], #[trigger] answers@[j]) is None,
        decreases plan@.len() - i,
    {
        match startup_check(&plan[i], answers[i]) {
            Ok(()) => {},
            Err(error) => {
                return Err((i, error));
            },
        }
        i += 1;
    }
    Ok(i)
}

/// The OPC UA server actor: its key, the plan of its address space, and
/// how far the plan was carried out.
pub struct OpcuaServer {
    key: String,
    plan: Vec<AddressSpaceOp>,
    done: usize,
    faulted: bool,
    serving: bool,
}

impl OpcuaServer {
    /// The key of the actor.
    pub closed spec fn key_text(&self) -> Seq<char> {
        self.key@
    }

    /// The operations that build the address space.
    pub closed spec fn planned(&self) -> Seq<AddressSpaceOp> {
        self.plan@
    }

    /// Whether the serving task runs.
    pub closed spec fn is_serving(&self) -> bool {
        self.serving
    }

    /// Number of operations of the plan that were carried out without
    /// fault.
    pub closed spec fn carried_out(&self) -> nat {
        self.done as nat
    }

    /// Whether an operation of the plan has failed.
    pub closed spec fn has_failed(&self) -> bool {
        self.faulted
    }

    /// The operation that is due, if there is one: the first that was not
    /// carried out, as long as none has failed.
    pub open spec fn due(&self) -> Option<AddressSpaceOp> {
        if !self.has_failed() && self.carried_out() < self.planned().len() {
            Some(self.planned()[self.carried_out() as int])
        } else {
            None
        }
    }

    /// A server for `structure`. A faulty namespace is a startup error.
    pub fn new(id: &str, structure: ServerStructure) -> (server: ActorResult<Self>)
        ensures
            match server {
                Ok(s) => {
                    &&& first_fault(structure.namespaces@) is None
                    &&& s.key_text() == id@
                    &&& s.planned() == structure_plan(structure)
                    &&& !s.is_serving()
                    &&& s.carried_out() == 0
                    &&& !s.has_failed()
                },
                Err(error) => error matches ActorError::StartupError(m) && first_fault(
                    structure.namespaces@,
                ) == Some(m@),
            },
    {
        match structure.process_server() {
            Ok(plan) => Ok(
                OpcuaServer { key: String::from_str(id), plan, done: 0, faulted: false, serving: false },
            ),
            Err(KernelError::ServerError(ServerError::ClientError(m))) => Err(
                ActorError::StartupError(m),
            ),
            Err(other) => Err(ActorError::from(other)),
        }
    }

    /// The key of the actor.
    pub fn key(&self) -> (key: &String)
        ensures
            key@ == self.key_text(),
    {
        &self.key
    }

    /// The operations that build the address space, in order.
    pub fn plan(&self) -> (plan: &Vec<AddressSpaceOp>)
        ensures
            plan@ == self.planned(),
    {
        &self.plan
    }

    /// The operation to carry out next. There is none once an operation
    /// has failed: the plan stops at its first fault, so that no node is
    /// inserted after a namespace or a node before it was refused.
    pub fn next_operation(&self) -> (operation: Option<&AddressSpaceOp>)
        ensures
            match operation {
                Some(op) => self.due() == Some(*op),
                None => self.due() is None,
            },
    {
        if !self.faulted && self.done < self.plan.len() {
            Some(&self.plan[self.done])
        } else {
            None
        }
    }

    /// Whether the whole plan was carried out without fault.
    pub fn is_built(&self) -> (built: bool)
        ensures
            built == (!self.has_failed() && self.carried_out() >= self.planned().len()),
    {
        !self.faulted && self.done >= self.plan.len()
    }

    /// Takes the answer of the server to the operation that is due. An
    /// answer without fault moves the plan on by one operation; a fault is
    /// a startup error and ends the plan. Where no operation is due, the
    /// answer is ignored.
    pub fn record(&mut self, answer: OpAnswer) -> (checked: ActorResultVoid)
        ensures
            final(self).key_text() == old(self).key_text(),
            final(self).planned() == old(self).planned(),
            final(self).is_serving() == old(self).is_serving(),
            match old(self).due() {
                None => {
                    &&& checked is Ok
                    &&& final(self).carried_out() == old(self).carried_out()
                    &&& final(self).has_failed() == old(self).has_failed()
                },
                Some(op) => match answer_fault(op, answer) {
                    None => {
                        &&& checked is Ok
                        &&& final(self).carried_out() == old(self).carried_out() + 1
                        &&& !final(self).has_failed()
                    },
                    Some(text) => {
                        &&& checked matches Err(ActorError::StartupError(m)) && m@ == text
                        &&& final(self).carried_out() == old(self).carried_out()
                        &&& final(self).has_failed()
                        &&& final(self).due() is None
                    },
                },
            },
    {
        if self.faulted || self.done >= self.plan.len() {
            return Ok(());
        }
        match startup_check(&self.plan[self.done], answer) {
            Ok(()) => {
                self.done = self.done + 1;
                Ok(())
            },
            Err(error) => {
                self.faulted = true;
                Err(error)
            },
        }
    }

    /// Takes a service message. A start spawns the serving task unless it
    /// runs already, and a stop aborts it if it runs; neither fails.
    pub fn handle(&mut self, message: ActorServiceMessage) -> (action: OpcuaAction)
        ensures
            final(self).key_text() == old(self).key_text(),
            final(self).planned() == old(self).planned(),
            final(self).carried_out() == old(self).carried_out(),
            final(self).has_failed() == old(self).has_failed(),
            final(self).is_serving() == (message == ActorServiceMessage::Start),
            action == match message {
                ActorServiceMessage::Start => if old(self).is_serving() {
                    OpcuaAction::Nothing
                } else {
                    OpcuaAction::Serve
                },
                ActorServiceMessage::Stop => if old(self).is_serving() {
                    OpcuaAction::Abort
                } else {
                    OpcuaAction::Nothing
                },
            },
    {
        match message {
            ActorServiceMessage::Start => {
                if self.serving {
                    OpcuaAction::Nothing
                } else {
                    self.serving = true;
                    OpcuaAction::Serve
                }
            },
            ActorServiceMessage::Stop => {
                if self.serving {
                    self.serving = false;
                    OpcuaAction::Abort
                } else {
                    OpcuaAction::Nothing
                }
            },
        }
    }

    /// What the answer of the server to the write of a variable means: a
    /// variable that is absent or not writable is a runtime error.
    pub fn update_outcome(&self, written: bool) -> (done: ActorResultVoid)
        ensures
            match done {
                Ok(()) => written,
                Err(error) => !written && (error matches ActorError::RuntimeError(m) && m@
                    == "Failed to update the value"@),
            },
    {
        if written {
            Ok(())
        } else {
            Err(ActorError::RuntimeError(String::from_str("Failed to update the value")))
        }
    }
}

/// The error of a server whose configuration could not be loaded.
pub fn try_to_build_server(id: &str, loaded: bool) -> (built: ActorResultVoid)
    ensures
        match built {
            Ok(()) => loaded,
            Err(error) => !loaded && (error matches ActorError::StartupError(m) && m@
                == config_fault(id@)),
        },
{
    if loaded {
        Ok(())
    } else {
        Err(ActorError::StartupError(concat2("Failed to load server config ", id)))
    }
}

} // verus!
