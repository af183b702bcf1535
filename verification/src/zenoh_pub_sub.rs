//! Robots that publish on Zenoh keys: every robot with a liveliness token becomes a component
//! whose data points can be read and written.

use vstd::prelude::*;

use crate::entity::{
    access_of, component_position, Access, Component, Data, DataError, DataFilter, DiscoveryError,
    EntityCollection, Metadata, Reply,
};
use crate::json;
use crate::session;
use crate::text;

verus! {

/// How many seconds a read waits for a publication.
pub const READ_TIMEOUT_SECONDS: u64 = 5;

/// How to reach the robots, and how to read their keys.
#[derive(Debug)]
pub struct ZenohConfig {
    /// The network address of the Zenoh router (e.g., "tcp/127.0.0.1:7447")
    pub endpoint: String,
    /// The selector for discovery (default: "**" for everything)
    pub discovery_selector: String,
    /// Which part of the path is the robot name? (0 = first part)
    pub robot_name_index: usize,
}

impl Default for ZenohConfig {
    fn default() -> (result: Self)
        ensures
            result.endpoint@ == "tcp/localhost:7447"@,
            result.discovery_selector@ == "**"@,
            result.robot_name_index == 0,
    {
        ZenohConfig {
            endpoint: "tcp/localhost:7447".to_owned(),
            discovery_selector: "**".to_owned(),
            robot_name_index: 0,
        }
    }
}

/// Serves the data of one robot. A data point is its id and its display name.
#[derive(Debug)]
pub struct ZenohDataProvider {
    pub key_prefix: String,
    pub data_points: Vec<(String, String)>,
}

/// Finds the robots behind a router.
#[derive(Debug)]
pub struct ZenohProvider {
    pub config: ZenohConfig,
}

/// What came of waiting for a publication.
#[derive(Debug)]
pub enum Delivery {
    /// There was no subscribing to the key.
    Undeclared(String),
    /// The payload of the first publication.
    Received(Vec<u8>),
    /// The subscription ended without one.
    Closed(String),
    /// Nothing came in time.
    TimedOut,
}

/// A value to publish.
#[derive(Debug)]
pub struct Publication {
    pub key: String,
    pub payload: String,
}

/// The robot and the data id that a token's key stands for, or `None` where the key is too short
/// to name a robot or leaves nothing for the data id.
pub open spec fn announced(robot_name_index: nat, key: Seq<char>) -> Option<
    (Seq<char>, Seq<char>),
> {
    let parts = text::segments(key, '/');
    let id = text::joined(parts.remove(robot_name_index as int), '_');
    if robot_name_index >= parts.len() || id.len() == 0 {
        None
    } else {
        Some((parts[robot_name_index as int], id))
    }
}

/// The data ids of each robot, in the order in which they came.
pub type Robots = Map<Seq<char>, Seq<Seq<char>>>;

/// `robots` with one more data id.
pub open spec fn with_point(robots: Robots, robot: Seq<char>, id: Seq<char>) -> Robots {
    let ids = if robots.contains_key(robot) {
        robots[robot]
    } else {
        Seq::empty()
    };
    robots.insert(robot, ids.push(id))
}

/// The robots that the tokens among a list of answers stand for.
pub open spec fn discovered(robot_name_index: nat, replies: Seq<Reply>) -> Robots
    decreases replies.len(),
{
    if replies.len() == 0 {
        Map::empty()
    } else {
        let before = discovered(robot_name_index, replies.drop_last());
        match replies.last() {
            Reply::Sample { key, .. } => match announced(robot_name_index, key@) {
                Some((robot, id)) => with_point(before, robot, id),
                None => before,
            },
            Reply::Failed => before,
        }
    }
}

/// Whether `list` holds exactly the data points with these ids, in this order, each under its id
/// as its name.
pub open spec fn lists_points(list: Seq<(String, String)>, ids: Seq<Seq<char>>) -> bool {
    &&& list.len() == ids.len()
    &&& forall|i: int|
        0 <= i < list.len() ==> (#[trigger] list[i]).0@ == ids[i] && list[i].1@ == ids[i]
}

/// Whether `component` is robot `robot` with exactly those data points.
pub open spec fn is_robot(
    component: Component<ZenohDataProvider>,
    robot: Seq<char>,
    ids: Seq<Seq<char>>,
) -> bool {
    &&& component.id@ == robot
    &&& component.name@ == "Zenoh Robot "@ + robot
    &&& component.data_provider.key_prefix@ == robot
    &&& lists_points(component.data_provider.data_points@, ids)
}

/// Whether `components` holds exactly the robots of `robots`, each once.
pub open spec fn lists_robots(
    components: Seq<Component<ZenohDataProvider>>,
    robots: Robots,
) -> bool {
    &&& forall|i: int, j: int|
        0 <= i < j < components.len() ==> components[i].id@ != components[j].id@
    &&& forall|i: int|
        0 <= i < components.len() ==> robots.contains_key(#[trigger] components[i].id@) && is_robot(
            components[i],
            components[i].id@,
            robots[components[i].id@],
        )
    &&& forall|robot: Seq<char>| #[trigger]
        robots.contains_key(robot) ==> exists|i: int|
            0 <= i < components.len() && (#[trigger] components[i]).id@ == robot
}

/// Records one data id under its robot.
fn record(
    components: &mut Vec<Component<ZenohDataProvider>>,
    robot: String,
    id: String,
    Ghost(robots): Ghost<Robots>,
)
    requires
        lists_robots(old(components)@, robots),
    ensures
        lists_robots(final(components)@, with_point(robots, robot@, id@)),
{
    let ghost before = components@;
    let ghost after = with_point(robots, robot@, id@);
    let ghost mut place: int = before.len() as int;
    let name = id.clone();
    match component_position(components, robot.as_str()) {
        Some(at) => {
            components[at].data_provider.data_points.push((id, name));
            proof {
                place = at as int;
            }
        },
        None => {
            proof {
                assert(!robots.contains_key(robot@));
            }
            let mut data_points: Vec<(String, String)> = Vec::new();
            data_points.push((id, name));
            let component_name = "Zenoh Robot ".to_owned().concat(robot.as_str());
            let component_id = robot.clone();
            components.push(
                Component {
                    id: component_id,
                    name: component_name,
                    data_provider: ZenohDataProvider { key_prefix: robot, data_points },
                },
            );
        },
    }
    proof {
        assert forall|key: Seq<char>| #[trigger] after.contains_key(key) implies exists|i: int|
            0 <= i < components@.len() && (#[trigger] components@[i]).id@ == key by {
            if key == robot@ {
                assert(components@[place].id@ == key);
            } else {
                assert(robots.contains_key(key));
                let i = choose|i: int| 0 <= i < before.len() && (#[trigger] before[i]).id@ == key;
                assert(components@[i].id@ == key);
            }
        }
        assert forall|i: int| 0 <= i < components@.len() implies after.contains_key(
            #[trigger] components@[i].id@,
        ) && is_robot(components@[i], components@[i].id@, after[components@[i].id@]) by {
            if i != place {
                assert(components@[i] == before[i]);
                assert(before[i].id@ != robot@);
            } else {
                assert(components@[i].data_provider.data_points@.last() == (id, name));
                if place < before.len() {
                    assert(components@[i].data_provider.data_points@
                        == before[i].data_provider.data_points@.push((id, name)));
                }
            }
        }
    }
}

impl ZenohConfig {
    /// The configuration of the session that the provider needs.
    pub fn session_config(&self) -> (result: Result<::zenoh::Config, String>)
        ensures
            exists|base: ::zenoh::Config| #[trigger]
                session::client_of(base, self.endpoint@, session::end_of(result)),
    {
        session::client_config(self.endpoint.as_str())
    }

    /// Reads which data id of which robot a token's key stands for.
    pub fn announced_by(&self, key: &str) -> (result: Option<(String, String)>)
        ensures
            announced(self.robot_name_index as nat, key@) == (match result {
                Some((robot, id)) => Some((robot@, id@)),
                None => None,
            }),
    {
        let parts = text::split(key, '/');
        if self.robot_name_index >= parts.len() {
            return None;
        }
        let robot = parts[self.robot_name_index].clone();
        let id = text::join_others(&parts, self.robot_name_index, '_');
        if id.as_str().is_empty() {
            return None;
        }
        Some((robot, id))
    }
}

impl ZenohProvider {
    /// Takes up the configuration once the session was opened; `opened` tells how that went.
    pub fn new(config: ZenohConfig, opened: Result<(), String>) -> (result: Result<Self, String>)
        ensures
            match opened {
                Ok(_) => result == Ok::<Self, String>(ZenohProvider { config }),
                Err(text) => result == Err::<Self, String>(text),
            },
    {
        match opened {
            Ok(_) => Ok(ZenohProvider { config }),
            Err(text) => Err(text),
        }
    }

    /// The selector that the discovery asks liveliness tokens for.
    pub fn discovery_query(&self) -> (result: &str)
        ensures
            result@ == self.config.discovery_selector@,
    {
        self.config.discovery_selector.as_str()
    }

    /// Makes a component of every robot whose liveliness tokens came back. The components come in
    /// no particular order, the data points of each in the order of the tokens.
    pub fn discover(&self, query: Result<Vec<Reply>, String>) -> (result: Result<
        EntityCollection<ZenohDataProvider>,
        DiscoveryError,
    >)
        ensures
            match query {
                Ok(replies) => result matches Ok(found) && lists_robots(
                    found.components@,
                    discovered(self.config.robot_name_index as nat, replies@),
                ),
                Err(text) => result matches Err(error) && error.text() == text@,
            },
    {
        let replies = match query {
            Ok(replies) => replies,
            Err(text) => return Err(DiscoveryError::Other(text)),
        };
        let mut components: Vec<Component<ZenohDataProvider>> = Vec::new();
        for i in 0..replies.len()
            invariant
                lists_robots(
                    components@,
                    discovered(self.config.robot_name_index as nat, replies@.take(i as int)),
                ),
        {
            let ghost before = discovered(
                self.config.robot_name_index as nat,
                replies@.take(i as int),
            );
            assert(replies@.take(i as int + 1).drop_last() == replies@.take(i as int));
            if let Reply::Sample { key, .. } = &replies[i] {
                if let Some((robot, id)) = self.config.announced_by(key.as_str()) {
                    record(&mut components, robot, id, Ghost(before));
                }
            }
        }
        assert(replies@.take(replies@.len() as int) == replies@);
        Ok(EntityCollection { components })
    }
}

impl ZenohDataProvider {
    /// The key of data point `id`.
    pub open spec fn data_key(self, id: Seq<char>) -> Seq<char> {
        self.key_prefix@ + "/"@ + text::replaced(id, '_', '/')
    }

    /// How a read of `id` ends, given what came of waiting for a publication.
    pub open spec fn read_access(self, id: Seq<char>, delivery: Delivery) -> Access {
        match delivery {
            Delivery::Undeclared(text) => Access::Internal(text@),
            Delivery::Received(payload) => Access::Document(
                json::payload_document(payload@),
            ),
            Delivery::Closed(text) => Access::Internal(
                "Subscriber Error: "@ + text@,
            ),
            Delivery::TimedOut => Access::NotFound(
                "Timeout: Robot did not send data on '"@ + self.data_key(id) + "'"@,
            ),
        }
    }

    /// Lists every data point, each readable and writable.
    pub fn list(&self, _filter: DataFilter) -> (result: Result<Vec<Metadata>, DataError>)
        ensures
            result matches Ok(list) && {
                &&& list.len() == self.data_points.len()
                &&& forall|i: int|
                    0 <= i < self.data_points.len() ==> #[trigger] list[i].describes(
                        self.data_points[i].0@,
                        self.data_points[i].1@,
                        "zenoh-pubsub"@,
                        true,
                    )
            },
    {
        let mut metadata: Vec<Metadata> = Vec::new();
        for i in 0..self.data_points.len()
            invariant
                metadata.len() == i,
                forall|j: int|
                    0 <= j < i ==> #[trigger] metadata[j].describes(
                        self.data_points[j].0@,
                        self.data_points[j].1@,
                        "zenoh-pubsub"@,
                        true,
                    ),
        {
            let (id, name) = &self.data_points[i];
            metadata.push(
                Metadata::readable(id.clone(), name.clone(), "zenoh-pubsub".to_owned(), true),
            );
        }
        Ok(metadata)
    }

    /// The key that `data_id` is published on: a read subscribes to it, a write publishes on it.
    pub fn key_for(&self, data_id: &str) -> (result: String)
        ensures
            result@ == self.data_key(data_id@),
    {
        let path = text::replace_char(data_id, '_', '/');
        self.key_prefix.clone().concat("/").concat(path.as_str())
    }

    /// Reads `data_id`, given what came of waiting for a publication on its key.
    pub fn read(&self, data_id: &str, _include_schema: bool, delivery: Delivery) -> (result: Result<
        Data,
        DataError,
    >)
        ensures
            access_of(result) == self.read_access(data_id@, delivery),
            result matches Ok(found) ==> found.schema is None,
    {
        match delivery {
            Delivery::Undeclared(text) => Err(DataError::Internal(text)),
            Delivery::Received(payload) => {
                let data = json::read_payload(payload.as_slice());
                Ok(Data { data, schema: None })
            },
            Delivery::Closed(text) => {
                let message = "Subscriber Error: ".to_owned().concat(text.as_str());
                Err(DataError::Internal(message))
            },
            Delivery::TimedOut => {
                let key = self.key_for(data_id);
                let message = "Timeout: Robot did not send data on '".to_owned().concat(
                    key.as_str(),
                ).concat("'");
                Err(DataError::NotFound(message))
            },
        }
    }

    /// What to publish in order to write `value` to `data_id`. A read that receives the payload
    /// gives the value back, as long as the value survives being text.
    pub fn write(&self, data_id: &str, value: serde_json::Value) -> (result: Publication)
        ensures
            result.key@ == self.data_key(data_id@),
            result.payload@ == json::printed(value),
            json::survives_text(json::json(value)) ==> forall|sent: Vec<u8>|
                sent@ == vstd::utf8::encode_utf8(result.payload@) ==> #[trigger] self.read_access(
                    data_id@,
                    Delivery::Received(sent),
                ) == Access::Document(json::json(value)),
    {
        let payload = json::print(&value);
        proof {
            vstd::utf8::encode_utf8_valid_utf8(payload@);
            vstd::utf8::encode_utf8_decode_utf8(payload@);
        }
        Publication { key: self.key_for(data_id), payload }
    }

    /// How a write ends, given how the publication went.
    pub fn written(&self, published: Result<(), String>) -> (result: Result<(), DataError>)
        ensures
            match published {
                Ok(_) => result is Ok,
                Err(text) => result matches Err(DataError::Internal(found)) && found@ == text@,
            },
    {
        match published {
            Ok(_) => Ok(()),
            Err(text) => Err(DataError::Internal(text)),
        }
    }
}

}
