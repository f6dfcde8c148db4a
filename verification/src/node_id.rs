//! Node identifiers of the OPC UA address space, held as plain values.
use vstd::prelude::*;
use crate::collections::KeyEq;
use crate::text::{decimal, push_decimal, push_str};

verus! {

/// The identifier part of a node id.
pub enum Identifier {
    /// `i=<n>`
    Numeric(u32),
    /// `s=<text>`
    String(String),
    /// `g=<guid>`: the sixteen bytes of the Guid, little-endian.
    Guid(u128),
    /// `b=<base64>`: an opaque identifier, kept as its standard base64 text.
    Opaque(String),
}

/// A node id: a namespace index and an identifier.
pub struct NodeId {
    pub namespace: u16,
    pub identifier: Identifier,
}

/// The mathematical view of an identifier.
pub enum IdentifierView {
    Numeric(u32),
    String(Seq<char>),
    Guid(u128),
    Opaque(Seq<char>),
}

/// The mathematical view of a node id.
pub struct NodeIdView {
    pub namespace: u16,
    pub identifier: IdentifierView,
}

impl View for Identifier {
    type V = IdentifierView;

    open spec fn view(&self) -> IdentifierView {
        match self {
            Identifier::Numeric(n) => IdentifierView::Numeric(*n),
            Identifier::String(s) => IdentifierView::String(s@),
            Identifier::Guid(g) => IdentifierView::Guid(*g),
            Identifier::Opaque(b) => IdentifierView::Opaque(b@),
        }
    }
}

impl View for NodeId {
    type V = NodeIdView;

    open spec fn view(&self) -> NodeIdView {
        NodeIdView { namespace: self.namespace, identifier: self.identifier@ }
    }
}

impl Clone for Identifier {
    fn clone(&self) -> (r: Self)
        ensures
            r == *self,
    {
        match self {
            Identifier::Numeric(n) => Identifier::Numeric(*n),
            Identifier::String(s) => Identifier::String(s.clone()),
            Identifier::Guid(g) => Identifier::Guid(*g),
            Identifier::Opaque(b) => Identifier::Opaque(b.clone()),
        }
    }
}

impl Clone for NodeId {
    fn clone(&self) -> (r: Self)
        ensures
            r == *self,
    {
        NodeId { namespace: self.namespace, identifier: self.identifier.clone() }
    }
}

impl KeyEq for NodeId {
    fn key_eq(&self, other: &Self) -> (r: bool) {
        if self.namespace != other.namespace {
            return false;
        }
        match (&self.identifier, &other.identifier) {
            (Identifier::Numeric(a), Identifier::Numeric(b)) => *a == *b,
            (Identifier::String(a), Identifier::String(b)) => *a == *b,
            (Identifier::Guid(a), Identifier::Guid(b)) => *a == *b,
            (Identifier::Opaque(a), Identifier::Opaque(b)) => *a == *b,
            _ => false,
        }
    }
}

/// Numeric id of the `RootFolder` object (OPC UA Part 6, standard node ids).
pub const ROOT_FOLDER_ID: u32 = 84;

/// Byte `i` of `g`, counting from the least significant.
pub open spec fn byte_of(g: nat, i: nat) -> nat
    decreases i,
{
    if i == 0 { g % 256 } else { byte_of(g / 256, (i - 1) as nat) }
}

/// The two lowercase hex digits of byte `i` of `g`.
pub open spec fn hex_byte(g: u128, i: nat) -> Seq<char> {
    let b = byte_of(g as nat, i);
    seq!["0123456789abcdef"@[(b / 16) as int], "0123456789abcdef"@[(b % 16) as int]]
}

/// The text of the Guid whose sixteen little-endian bytes are `g`: the
/// first three fields are little-endian, so their bytes come reversed; the
/// rest in order; lowercase hex, hyphens after the 4th, 6th, 8th and 10th byte.
pub open spec fn guid_text(g: u128) -> Seq<char> {
    hex_byte(g, 3) + hex_byte(g, 2) + hex_byte(g, 1) + hex_byte(g, 0) + "-"@
        + hex_byte(g, 5) + hex_byte(g, 4) + "-"@
        + hex_byte(g, 7) + hex_byte(g, 6) + "-"@
        + hex_byte(g, 8) + hex_byte(g, 9) + "-"@
        + hex_byte(g, 10) + hex_byte(g, 11) + hex_byte(g, 12) + hex_byte(g, 13) + hex_byte(g, 14) + hex_byte(g, 15)
}

/// The hyphenated text of a Guid, as `opcua::types::Guid`'s `Debug` writes
/// it: `Guid::from_bytes` takes the bytes in Microsoft's per-field
/// little-endian order (`Uuid::from_bytes_le`), and `Debug` writes the
/// uuid's lowercase hyphenated form.
#[verifier::external_body]
fn guid_to_text(g: u128) -> (s: String)
    ensures
        s@ == guid_text(g),
{
    format!("{:?}", opcua::types::Guid::from_bytes(g.to_le_bytes()))
}

/// The text of an identifier (`Display` for `opcua::types::Identifier`).
pub open spec fn identifier_text(id: IdentifierView) -> Seq<char> {
    match id {
        IdentifierView::Numeric(n) => "i="@ + decimal(n as nat),
        IdentifierView::String(s) => "s="@ + s,
        IdentifierView::Guid(g) => "g="@ + guid_text(g),
        IdentifierView::Opaque(b) => "b="@ + b,
    }
}

/// The text of a node id (`Display` for `opcua::types::NodeId`): the
/// namespace prefix is written only for namespaces other than 0.
pub open spec fn node_id_text(id: NodeIdView) -> Seq<char> {
    if id.namespace != 0 {
        "ns="@ + decimal(id.namespace as nat) + ";"@ + identifier_text(id.identifier)
    } else {
        identifier_text(id.identifier)
    }
}

/// The result of `opcua::types::NodeId::from_str` on a text: the node id it
/// reads, or the text of the status code it fails with.
pub uninterp spec fn node_id_parse(s: Seq<char>) -> Result<NodeIdView, Seq<char>>;

/// `opcua::types::NodeId::from_str`, converted to the library's node id.
#[verifier::external_body]
pub(crate) fn parse_node_id(s: &str) -> (r: Result<NodeId, String>)
    ensures
        match r {
            Ok(id) => node_id_parse(s@) == Ok::<NodeIdView, Seq<char>>(id@),
            Err(e) => node_id_parse(s@) == Err::<NodeIdView, Seq<char>>(e@),
        },
{
    match <opcua::types::NodeId as std::str::FromStr>::from_str(s) {
        Ok(id) => Ok(NodeId {
            namespace: id.namespace,
            identifier: match id.identifier {
                opcua::types::Identifier::Numeric(n) => Identifier::Numeric(n),
                opcua::types::Identifier::String(v) => Identifier::String(v.to_string()),
                opcua::types::Identifier::Guid(g) => Identifier::Guid(u128::from_le_bytes(g.to_bytes())),
                opcua::types::Identifier::ByteString(b) => Identifier::Opaque(b.as_base64()),
            },
        }),
        Err(e) => Err(e.to_string()),
    }
}

impl NodeId {
    /// A numeric node id.
    pub fn numeric(namespace: u16, value: u32) -> (r: NodeId)
        ensures
            r@ == (NodeIdView { namespace, identifier: IdentifierView::Numeric(value) }),
    {
        NodeId { namespace, identifier: Identifier::Numeric(value) }
    }

    /// The address-space root, `i=84`.
    pub fn root_folder() -> (r: NodeId)
        ensures
            r@ == (NodeIdView { namespace: 0, identifier: IdentifierView::Numeric(ROOT_FOLDER_ID) }),
    {
        NodeId::numeric(0, ROOT_FOLDER_ID)
    }

    /// The null node id, `i=0`.
    pub fn null() -> (r: NodeId)
        ensures
            r@ == (NodeIdView { namespace: 0, identifier: IdentifierView::Numeric(0) }),
    {
        NodeId::numeric(0, 0)
    }

    /// Equality of node ids.
    pub fn same(&self, other: &NodeId) -> (r: bool)
        ensures
            r == (self@ == other@),
    {
        self.key_eq(other)
    }

    /// Appends the text of this node id.
    pub fn write_text(&self, out: &mut String)
        ensures
            final(out)@ == old(out)@ + node_id_text(self@),
    {
        if self.namespace != 0 {
            push_str(out, "ns=");
            push_decimal(out, self.namespace as u64);
            push_str(out, ";");
        }
        match &self.identifier {
            Identifier::Numeric(n) => {
                push_str(out, "i=");
                push_decimal(out, *n as u64);
            },
            Identifier::String(s) => {
                push_str(out, "s=");
                push_str(out, s.as_str());
            },
            Identifier::Guid(g) => {
                push_str(out, "g=");
                let t = guid_to_text(*g);
                push_str(out, t.as_str());
            },
            Identifier::Opaque(b) => {
                push_str(out, "b=");
                push_str(out, b.as_str());
            },
        }
        assert(final(out)@ =~= old(out)@ + node_id_text(self@));
    }

    /// The text of this node id (`ns=1;i=1234`, `i=85`).
    pub fn to_text(&self) -> (s: String)
        ensures
            s@ == node_id_text(self@),
    {
        let mut s = String::new();
        self.write_text(&mut s);
        assert(s@ =~= node_id_text(self@));
        s
    }
}

} // verus!
