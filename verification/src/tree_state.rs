//! Tree states that are kept as JSON documents.

use crate::json::{json_i64, json_member, json_text, json_u64, parse_json};
use crate::json::{json_node, member, node_i64, node_text, node_u64, parsed_json, JsonNode};
use crate::messages::{TreeState, TreeStateView};
use vstd::prelude::*;

verus! {

/// A field of the document.
#[derive(Clone, Copy, Debug, PartialEq, Eq)]
pub enum Field {
    Network,
    Height,
    Hash,
    Time,
    SaplingTree,
    OrchardTree,
}

/// Why the fields of a document make no tree state.
#[derive(Clone, Copy, Debug, PartialEq, Eq)]
pub enum FieldError {
    /// The field is missing, or is not of its type.
    Missing(Field),
    /// The time does not fit 32 bits.
    TimeOutOfRange,
}

/// Why a text makes no tree state.
#[derive(Debug)]
pub enum TreeStateError {
    /// The text is no JSON document.
    Json(serde_json::Error),
    /// The document does not have what a tree state needs.
    Field(FieldError),
}

/// The fields of the document, each `None` where it is missing or not of its type.
#[derive(Debug, PartialEq, Eq)]
pub struct TreeStateFields {
    pub network: Option<String>,
    pub height: Option<u64>,
    pub hash: Option<String>,
    pub time: Option<i64>,
    pub sapling_tree: Option<String>,
    pub orchard_tree: Option<String>,
}

/// What a `TreeStateFields` says.
pub struct TreeStateFieldsView {
    pub network: Option<Seq<char>>,
    pub height: Option<u64>,
    pub hash: Option<Seq<char>>,
    pub time: Option<i64>,
    pub sapling_tree: Option<Seq<char>>,
    pub orchard_tree: Option<Seq<char>>,
}

/// The text of an optional string.
pub open spec fn optional_text(text: Option<String>) -> Option<Seq<char>> {
    match text {
        Some(text) => Some(text@),
        None => None,
    }
}

impl View for TreeStateFields {
    type V = TreeStateFieldsView;

    open spec fn view(&self) -> TreeStateFieldsView {
        TreeStateFieldsView {
            network: optional_text(self.network),
            height: self.height,
            hash: optional_text(self.hash),
            time: self.time,
            sapling_tree: optional_text(self.sapling_tree),
            orchard_tree: optional_text(self.orchard_tree),
        }
    }
}

/// The fields that a JSON document has for a tree state.
pub open spec fn fields_of(document: JsonNode) -> TreeStateFieldsView {
    TreeStateFieldsView {
        network: node_text(member(document, "network"@)),
        height: node_u64(member(document, "height"@)),
        hash: node_text(member(document, "hash"@)),
        time: node_i64(member(document, "time"@)),
        sapling_tree: node_text(member(document, "saplingTree"@)),
        orchard_tree: node_text(member(document, "orchardTree"@)),
    }
}

/// The tree state that the fields make, or the first thing that is wrong with them. The
/// range of the time is looked at before the trees are.
pub open spec fn state_of_fields(f: TreeStateFieldsView) -> Result<TreeStateView, FieldError> {
    if f.network is None {
        Err(FieldError::Missing(Field::Network))
    } else if f.height is None {
        Err(FieldError::Missing(Field::Height))
    } else if f.hash is None {
        Err(FieldError::Missing(Field::Hash))
    } else if f.time is None {
        Err(FieldError::Missing(Field::Time))
    } else if !(0 <= f.time->0 <= u32::MAX) {
        Err(FieldError::TimeOutOfRange)
    } else if f.sapling_tree is None {
        Err(FieldError::Missing(Field::SaplingTree))
    } else if f.orchard_tree is None {
        Err(FieldError::Missing(Field::OrchardTree))
    } else {
        Ok(
            TreeStateView {
                network: f.network->0,
                height: f.height->0,
                hash: f.hash->0,
                time: f.time->0 as u32,
                sapling_tree: f.sapling_tree->0,
                orchard_tree: f.orchard_tree->0,
            },
        )
    }
}

impl TreeState {
    /// Makes a tree state of the fields of a document.
    pub fn from_fields(fields: TreeStateFields) -> (r: Result<TreeState, FieldError>)
        ensures
            match state_of_fields(fields@) {
                Ok(state) => r is Ok && r->Ok_0@ == state,
                Err(error) => r is Err && r->Err_0 == error,
            },
            r matches Ok(state) ==> {
                &&& fields.network matches Some(network) && state.network@ == network@
                &&& fields.height matches Some(height) && state.height == height
                &&& fields.hash matches Some(hash) && state.hash@ == hash@
                &&& fields.time matches Some(time) && state.time as int == time as int
                &&& fields.sapling_tree matches Some(tree) && state.sapling_tree@ == tree@
                &&& fields.orchard_tree matches Some(tree) && state.orchard_tree@ == tree@
            },
    {
        let network = match fields.network {
            Some(network) => network,
            None => return Err(FieldError::Missing(Field::Network)),
        };
        let height: u64 = match fields.height {
            Some(height) => height,
            None => return Err(FieldError::Missing(Field::Height)),
        };
        let hash = match fields.hash {
            Some(hash) => hash,
            None => return Err(FieldError::Missing(Field::Hash)),
        };
        let time: i64 = match fields.time {
            Some(time) => time,
            None => return Err(FieldError::Missing(Field::Time)),
        };
        if time < 0 || time > u32::MAX as i64 {
            return Err(FieldError::TimeOutOfRange);
        }
        let sapling_tree = match fields.sapling_tree {
            Some(tree) => tree,
            None => return Err(FieldError::Missing(Field::SaplingTree)),
        };
        let orchard_tree = match fields.orchard_tree {
            Some(tree) => tree,
            None => return Err(FieldError::Missing(Field::OrchardTree)),
        };
        Ok(TreeState { network, height, hash, time: time as u32, sapling_tree, orchard_tree })
    }

    /// Reads a tree state out of a file's contents, a JSON document.
    pub fn from_file(contents: &str) -> (r: Result<TreeState, TreeStateError>)
        ensures
            match parsed_json(contents@) {
                None => r matches Err(TreeStateError::Json(_)),
                Some(document) => match state_of_fields(fields_of(document)) {
                    Ok(state) => r is Ok && r->Ok_0@ == state,
                    Err(error) => r matches Err(TreeStateError::Field(e)) && e == error,
                },
            },
    {
        let document = match parse_json(contents) {
            Ok(document) => document,
            Err(error) => return Err(TreeStateError::Json(error)),
        };
        let fields = TreeStateFields {
            network: json_text(json_member(&document, "network")),
            height: json_u64(json_member(&document, "height")),
            hash: json_text(json_member(&document, "hash")),
            time: json_i64(json_member(&document, "time")),
            sapling_tree: json_text(json_member(&document, "saplingTree")),
            orchard_tree: json_text(json_member(&document, "orchardTree")),
        };
        assert(fields@ == fields_of(json_node(document)));
        match TreeState::from_fields(fields) {
            Ok(state) => Ok(state),
            Err(error) => Err(TreeStateError::Field(error)),
        }
    }
}

} // verus!
