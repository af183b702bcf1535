//! What a provider hands to the diagnostic server: components with their data, descriptions of
//! single data points, values and errors.

use vstd::prelude::*;

use crate::json::{json, Json};
use crate::text;

verus! {

/// One answer to a Zenoh query.
#[derive(Debug)]
pub enum Reply {
    /// A value published under a key.
    Sample { key: String, payload: Vec<u8> },
    /// An answer that carries an error instead of a value.
    Failed,
}

/// A diagnostic entity, with the provider that serves its data.
#[derive(Debug)]
pub struct Component<P> {
    pub id: String,
    pub name: String,
    pub data_provider: P,
}

/// The entities that a discovery found.
#[derive(Debug)]
pub struct EntityCollection<P> {
    pub components: Vec<Component<P>>,
}

/// Selection that a client may send along with a listing; a robot is always listed whole.
#[derive(Debug, Default)]
pub struct DataFilter {}

/// Description of one data point.
#[derive(Debug)]
pub struct Metadata {
    pub id: String,
    pub name: String,
    pub category: String,
    pub is_readable: bool,
    pub is_writable: bool,
    pub translation_id: Option<String>,
    pub groups: Vec<String>,
    pub tags: Vec<String>,
    pub schema: Option<serde_json::Value>,
}

/// The value of a data point.
#[derive(Debug)]
pub struct Data {
    pub data: serde_json::Value,
    pub schema: Option<serde_json::Value>,
}

/// Why a data access failed.
#[derive(Debug)]
pub enum DataError {
    /// There is no such data point, or no data for it.
    NotFound(String),
    /// The access itself failed.
    Internal(String),
}

/// Why a discovery failed.
#[derive(Debug)]
pub enum DiscoveryError {
    Other(String),
}

/// How a data access ends: with a document, or with an error and its text.
pub ghost enum Access {
    Document(Json),
    NotFound(Seq<char>),
    Internal(Seq<char>),
}

/// How a read ended.
pub open spec fn access_of(result: Result<Data, DataError>) -> Access {
    match result {
        Ok(found) => Access::Document(json(found.data)),
        Err(DataError::NotFound(text)) => Access::NotFound(text@),
        Err(DataError::Internal(text)) => Access::Internal(text@),
    }
}

impl DataError {
    /// The text of the error.
    pub open spec fn text(self) -> Seq<char> {
        match self {
            DataError::NotFound(text) => text@,
            DataError::Internal(text) => text@,
        }
    }

    /// Hands out the text of the error.
    pub fn message(&self) -> (result: String)
        ensures
            result@ == self.text(),
    {
        match self {
            DataError::NotFound(text) => text.clone(),
            DataError::Internal(text) => text.clone(),
        }
    }
}

impl DiscoveryError {
    /// The text of the error.
    pub open spec fn text(self) -> Seq<char> {
        match self {
            DiscoveryError::Other(text) => text@,
        }
    }

    /// Hands out the text of the error.
    pub fn message(&self) -> (result: String)
        ensures
            result@ == self.text(),
    {
        match self {
            DiscoveryError::Other(text) => text.clone(),
        }
    }
}

/// Finds the component `id`.
pub(crate) fn component_position<P>(components: &Vec<Component<P>>, id: &str) -> (result: Option<
    usize,
>)
    ensures
        match result {
            Some(at) => at < components.len() && components[at as int].id@ == id@,
            None => forall|i: int|
                0 <= i < components.len() ==> (#[trigger] components[i]).id@ != id@,
        },
{
    for at in 0..components.len()
        invariant
            forall|i: int| 0 <= i < at ==> (#[trigger] components[i]).id@ != id@,
    {
        if text::same(components[at].id.as_str(), id) {
            return Some(at);
        }
    }
    None
}

impl Metadata {
    /// Whether this describes the data point `id` as readable, with that name and category, and
    /// with nothing in the optional parts.
    pub open spec fn describes(
        self,
        id: Seq<char>,
        name: Seq<char>,
        category: Seq<char>,
        writable: bool,
    ) -> bool {
        &&& self.id@ == id
        &&& self.name@ == name
        &&& self.category@ == category
        &&& self.is_readable
        &&& self.is_writable == writable
        &&& self.translation_id is None
        &&& self.groups@.len() == 0
        &&& self.tags@.len() == 0
        &&& self.schema is None
    }

    /// Describes a readable data point.
    pub(crate) fn readable(id: String, name: String, category: String, writable: bool) -> (result:
        Self)
        ensures
            result.describes(id@, name@, category@, writable),
    {
        Metadata {
            id,
            name,
            category,
            is_readable: true,
            is_writable: writable,
            translation_id: None,
            groups: Vec::new(),
            tags: Vec::new(),
            schema: None,
        }
    }
}

}
