//! Robots that answer Zenoh queries: every robot becomes a component whose data points can be
//! read, but not written.

use vstd::prelude::*;

use crate::entity::{
    access_of, component_position, Access, Component, Data, DataError, DataFilter, DiscoveryError,
    EntityCollection, Metadata, Reply,
};
use crate::json;
use crate::session;
use crate::text;

verus! {

/// How to reach the robots, and how to read their keys.
#[derive(Debug)]
pub struct ZenohConfig {
    /// The network address of the Zenoh Router
    pub endpoint: String,
    /// The Zenoh selector used to find robots.
    /// Use "**" for everything or "robots/**" to filter for specific prefixes.
    pub discovery_selector: String,
    /// Defines which part of the Zenoh path is the Robot Name.
    /// Index 0 means the first part (e.g., "RobotA/sensor" -> "RobotA")
    pub robot_name_index: usize,
    /// Fallback category when the queryable response does not include one.
    pub category: String,
}

impl Default for ZenohConfig {
    fn default() -> (result: Self)
        ensures
            result.endpoint@ == "tcp/localhost:7447"@,
            result.discovery_selector@ == "**"@,
            result.robot_name_index == 0,
            result.category@ == "currentData"@,
    {
        ZenohConfig {
            endpoint: "tcp/localhost:7447".to_owned(),
            discovery_selector: "**".to_owned(),
            robot_name_index: 0,
            category: "currentData".to_owned(),
        }
    }
}

/// One data point of a robot.
#[derive(Debug)]
pub struct DataPointMeta {
    pub id: String,
    pub name: String,
    pub category: String,
}

/// What a data point is: its id, its display name and its category.
pub ghost struct DataPoint {
    pub id: Seq<char>,
    pub name: Seq<char>,
    pub category: Seq<char>,
}

impl View for DataPointMeta {
    type V = DataPoint;

    open spec fn view(&self) -> DataPoint {
        DataPoint { id: self.id@, name: self.name@, category: self.category@ }
    }
}

/// Serves the data of one robot.
#[derive(Debug)]
pub struct ZenohDataProvider {
    pub robot_name: String,
    pub data_points: Vec<DataPointMeta>,
    pub fallback_category: String,
}

/// Finds the robots behind a router.
#[derive(Debug)]
pub struct ZenohProvider {
    pub config: ZenohConfig,
}

/// The key without the robot's name in front, or the whole key where it does not start with it.
pub open spec fn relative_key(robot: Seq<char>, key: Seq<char>) -> Seq<char> {
    text::without_prefix(key, robot.push('/'))
}

/// The data id for a key of a robot.
pub open spec fn key_data_id(robot: Seq<char>, key: Seq<char>) -> Seq<char> {
    text::replaced(relative_key(robot, key), '/', '_')
}

/// A sample of the discovery: its key, and its payload as a document where it is one.
#[derive(Debug)]
pub struct Announcement {
    pub key: String,
    pub document: Option<serde_json::Value>,
}

impl View for Announcement {
    type V = (Seq<char>, Option<json::Json>);

    open spec fn view(&self) -> (Seq<char>, Option<json::Json>) {
        (self.key@, json::optional_json(self.document))
    }
}

/// The views of a list of announcements.
pub open spec fn announcement_views(list: Seq<Announcement>) -> Seq<
    (Seq<char>, Option<json::Json>),
> {
    list.map_values(|a: Announcement| a@)
}

/// The announcements among the answers to a query, in order; answers without a value are none.
pub open spec fn announcements_in(replies: Seq<Reply>) -> Seq<(Seq<char>, Option<json::Json>)>
    decreases replies.len(),
{
    if replies.len() == 0 {
        Seq::empty()
    } else {
        let before = announcements_in(replies.drop_last());
        match replies.last() {
            Reply::Sample { key, payload } => before.push(
                (key@, json::parsed(json::body_text(payload@))),
            ),
            Reply::Failed => before,
        }
    }
}

/// The data point that a sample announces, with its robot, or `None` where it announces none: a
/// key with a wildcard, one that is too short to name a robot, or one that leaves nothing for the
/// data id.
pub open spec fn announced(
    config: ZenohConfig,
    key: Seq<char>,
    document: Option<json::Json>,
) -> Option<(Seq<char>, DataPoint)> {
    let parts = text::segments(key, '/');
    let robot = parts[config.robot_name_index as int];
    let id = key_data_id(robot, key);
    if key.contains('*') || config.robot_name_index >= parts.len() || id.len() == 0 {
        None
    } else {
        Some((robot, described_point(id, document, config.category@)))
    }
}

/// The data point `id`, named and categorised by the document that came with it: the display name
/// falls back to the id with spaces, the category to the configured one.
pub open spec fn described_point(
    id: Seq<char>,
    document: Option<json::Json>,
    category: Seq<char>,
) -> DataPoint {
    DataPoint {
        id,
        name: match json::text_member(document, "name"@) {
            Some(name) => name,
            None => text::replaced(id, '_', ' '),
        },
        category: match json::text_member(document, "category"@) {
            Some(found) => found,
            None => category,
        },
    }
}

/// The data points of each robot, by id.
pub type Robots = Map<Seq<char>, Map<Seq<char>, DataPoint>>;

/// `robots` with one more data point, in place of one with the same id.
pub open spec fn with_point(robots: Robots, robot: Seq<char>, point: DataPoint) -> Robots {
    let points = if robots.contains_key(robot) {
        robots[robot]
    } else {
        Map::empty()
    };
    robots.insert(robot, points.insert(point.id, point))
}

/// The robots that a list of announcements tells of; a later one replaces an earlier one for the
/// same data point.
pub open spec fn discovered(
    config: ZenohConfig,
    announcements: Seq<(Seq<char>, Option<json::Json>)>,
) -> Robots
    decreases announcements.len(),
{
    if announcements.len() == 0 {
        Map::empty()
    } else {
        let before = discovered(config, announcements.drop_last());
        let (key, document) = announcements.last();
        match announced(config, key, document) {
            Some((robot, point)) => with_point(before, robot, point),
            None => before,
        }
    }
}

/// Whether `list` holds exactly the data points of `points`, each once.
pub open spec fn lists_points(
    list: Seq<DataPointMeta>,
    points: Map<Seq<char>, DataPoint>,
) -> bool {
    &&& forall|i: int, j: int| 0 <= i < j < list.len() ==> list[i].id@ != list[j].id@
    &&& forall|i: int|
        0 <= i < list.len() ==> points.contains_key(#[trigger] list[i].id@) && points[list[i].id@]
            == list[i]@
    &&& forall|id: Seq<char>| #[trigger]
        points.contains_key(id) ==> exists|i: int| 0 <= i < list.len() && (#[trigger] list[i]).id@ == id
}

/// Whether `component` is robot `robot` with exactly those data points.
pub open spec fn is_robot(
    component: Component<ZenohDataProvider>,
    robot: Seq<char>,
    points: Map<Seq<char>, DataPoint>,
    category: Seq<char>,
) -> bool {
    &&& component.id@ == robot
    &&& component.name@ == "Zenoh Robot "@ + robot
    &&& component.data_provider.robot_name@ == robot
    &&& component.data_provider.fallback_category@ == category
    &&& lists_points(component.data_provider.data_points@, points)
}

/// Whether `components` holds exactly the robots of `robots`, each once.
pub open spec fn lists_robots(
    components: Seq<Component<ZenohDataProvider>>,
    robots: Robots,
    category: Seq<char>,
) -> bool {
    &&& forall|i: int, j: int|
        0 <= i < j < components.len() ==> components[i].id@ != components[j].id@
    &&& forall|i: int|
        0 <= i < components.len() ==> robots.contains_key(#[trigger] components[i].id@) && is_robot(
            components[i],
            components[i].id@,
            robots[components[i].id@],
            category,
        )
    &&& forall|robot: Seq<char>| #[trigger]
        robots.contains_key(robot) ==> exists|i: int|
            0 <= i < components.len() && (#[trigger] components[i]).id@ == robot
}

/// Describes the data point `id` by the document that came with it.
pub fn describe_point(id: String, document: &Option<serde_json::Value>, category: &str) -> (result:
    DataPointMeta)
    ensures
        result@ == described_point(id@, json::optional_json(*document), category@),
{
    let name = match json::text_field(document, "name") {
        Some(name) => name,
        None => text::replace_char(id.as_str(), '_', ' '),
    };
    let category = match json::text_field(document, "category") {
        Some(found) => found,
        None => category.to_owned(),
    };
    DataPointMeta { id, name, category }
}

/// Finds the data point `id`.
fn position(list: &Vec<DataPointMeta>, id: &str) -> (result: Option<usize>)
    ensures
        match result {
            Some(at) => at < list.len() && list[at as int].id@ == id@,
            None => forall|i: int| 0 <= i < list.len() ==> (#[trigger] list[i]).id@ != id@,
        },
{
    for at in 0..list.len()
        invariant
            forall|i: int| 0 <= i < at ==> (#[trigger] list[i]).id@ != id@,
    {
        if text::same(list[at].id.as_str(), id) {
            return Some(at);
        }
    }
    None
}

/// Puts a data point into a robot's list, in place of one with the same id.
fn put_point(
    list: &mut Vec<DataPointMeta>,
    point: DataPointMeta,
    Ghost(points): Ghost<Map<Seq<char>, DataPoint>>,
)
    requires
        lists_points(old(list)@, points),
    ensures
        lists_points(final(list)@, points.insert(point@.id, point@)),
{
    let ghost before = list@;
    let ghost mut place: int = before.len() as int;
    match position(list, point.id.as_str()) {
        Some(at) => {
            list.set(at, point);
            proof {
                place = at as int;
            }
        },
        None => {
            list.push(point);
        },
    }
    proof {
        let after = points.insert(point@.id, point@);
        assert forall|id: Seq<char>| #[trigger] after.contains_key(id) implies exists|i: int|
            0 <= i < list@.len() && (#[trigger] list@[i]).id@ == id by {
            if id == point.id@ {
                assert(list@[place].id@ == id);
            } else {
                assert(points.contains_key(id));
                let i = choose|i: int| 0 <= i < before.len() && (#[trigger] before[i]).id@ == id;
                assert(list@[i].id@ == id);
            }
        }
    }
}

/// Records one announced data point under its robot.
fn record(
    components: &mut Vec<Component<ZenohDataProvider>>,
    robot: String,
    point: DataPointMeta,
    category: &str,
    Ghost(robots): Ghost<Robots>,
)
    requires
        lists_robots(old(components)@, robots, category@),
    ensures
        lists_robots(final(components)@, with_point(robots, robot@, point@), category@),
{
    let ghost before = components@;
    let ghost after = with_point(robots, robot@, point@);
    let ghost mut place: int = before.len() as int;
    match component_position(components, robot.as_str()) {
        Some(at) => {
            put_point(
                &mut components[at].data_provider.data_points,
                point,
                Ghost(robots[robot@]),
            );
            proof {
                place = at as int;
            }
        },
        None => {
            proof {
                assert(!robots.contains_key(robot@));
            }
            let mut data_points: Vec<DataPointMeta> = Vec::new();
            put_point(&mut data_points, point, Ghost(Map::empty()));
            let data_provider = ZenohDataProvider {
                robot_name: robot.clone(),
                data_points,
                fallback_category: category.to_owned(),
            };
            let name = "Zenoh Robot ".to_owned().concat(robot.as_str());
            components.push(Component { id: robot, name, data_provider });
        },
    }
    proof {
        assert forall|id: Seq<char>| #[trigger] after.contains_key(id) implies exists|i: int|
            0 <= i < components@.len() && (#[trigger] components@[i]).id@ == id by {
            if id == robot@ {
                assert(components@[place].id@ == id);
            } else {
                assert(robots.contains_key(id));
                let i = choose|i: int| 0 <= i < before.len() && (#[trigger] before[i]).id@ == id;
                assert(components@[i].id@ == id);
            }
        }
        assert forall|i: int| 0 <= i < components@.len() implies after.contains_key(
            #[trigger] components@[i].id@,
        ) && is_robot(components@[i], components@[i].id@, after[components@[i].id@], category@) by {
            if i != place {
                assert(components@[i] == before[i]);
                assert(before[i].id@ != robot@);
            }
        }
    }
}

impl ZenohConfig {
    /// The configuration of the session that the provider needs.
    pub fn session_config(&self) -> (result: Result<::zenoh::Config, String>)
        ensures
            exists|base: ::zenoh::Config| #[trigger]
                session::client_of(base, self.endpoint@, session::end_of(result)),
    {
        session::client_config(self.endpoint.as_str())
    }

    /// Reads which data point of which robot a sample announces.
    pub fn announced_by(&self, sample: &Announcement) -> (result: Option<(String, DataPointMeta)>)
        ensures
            announced(*self, sample@.0, sample@.1) == (match result {
                Some((robot, point)) => Some((robot@, point@)),
                None => None,
            }),
    {
        let key = sample.key.as_str();
        if text::contains_char(key, '*') {
            return None;
        }
        let parts = text::split(key, '/');
        if self.robot_name_index >= parts.len() {
            return None;
        }
        let robot = parts[self.robot_name_index].clone();
        let id = data_id_of(robot.as_str(), key);
        if id.as_str().is_empty() {
            return None;
        }
        Some((robot, describe_point(id, &sample.document, self.category.as_str())))
    }
}

/// Takes the announcements out of the answers to a query.
pub fn announcements(replies: &Vec<Reply>) -> (result: Vec<Announcement>)
    ensures
        announcement_views(result@) == announcements_in(replies@),
{
    let mut result: Vec<Announcement> = Vec::new();
    for i in 0..replies.len()
        invariant
            announcement_views(result@) == announcements_in(replies@.take(i as int)),
    {
        assert(replies@.take(i as int + 1).drop_last() == replies@.take(i as int));
        match &replies[i] {
            Reply::Sample { key, payload } => {
                let ghost before = announcement_views(result@);
                let document = json::parse_payload(payload.as_slice());
                result.push(Announcement { key: key.clone(), document });
                assert(announcement_views(result@) == before.push(result@.last()@));
            },
            Reply::Failed => {},
        }
    }
    assert(replies@.take(replies@.len() as int) == replies@);
    result
}

/// Makes the data id for a key of a robot.
fn data_id_of(robot: &str, key: &str) -> (result: String)
    ensures
        result@ == key_data_id(robot@, key@),
{
    let prefix = robot.to_owned().concat("/");
    proof {
        reveal_strlit("/");
        assert("/"@ == seq!['/']);
        assert(prefix@ == robot@.push('/'));
    }
    let relative = text::strip_prefix(key, prefix.as_str());
    text::replace_char(relative.as_str(), '/', '_')
}

impl ZenohProvider {
    /// Takes up the configuration once the session was opened; `opened` tells how that went.
    pub fn new(config: ZenohConfig, opened: Result<(), String>) -> (result: Result<Self, String>)
        ensures
            match opened {
                Ok(_) => result == Ok::<Self, String>(ZenohProvider { config }),
                Err(text) => result == Err::<Self, String>(text),
            },
    {
        match opened {
            Ok(_) => Ok(ZenohProvider { config }),
            Err(text) => Err(text),
        }
    }

    /// The selector that the discovery sends out as a query.
    pub fn discovery_query(&self) -> (result: &str)
        ensures
            result@ == self.config.discovery_selector@,
    {
        self.config.discovery_selector.as_str()
    }

    /// Makes a component of every robot that the announcements tell of.
    ///
    /// The components, and the data points of each, come in no particular order.
    pub fn collect(&self, announcements: &Vec<Announcement>) -> (result: EntityCollection<
        ZenohDataProvider,
    >)
        ensures
            lists_robots(
                result.components@,
                discovered(self.config, announcement_views(announcements@)),
                self.config.category@,
            ),
    {
        let mut components: Vec<Component<ZenohDataProvider>> = Vec::new();
        let ghost all = announcement_views(announcements@);
        for i in 0..announcements.len()
            invariant
                all == announcement_views(announcements@),
                lists_robots(
                    components@,
                    discovered(self.config, all.take(i as int)),
                    self.config.category@,
                ),
        {
            let ghost before = discovered(self.config, all.take(i as int));
            assert(all.take(i as int + 1).drop_last() == all.take(i as int));
            if let Some((robot, point)) = self.config.announced_by(&announcements[i]) {
                record(
                    &mut components,
                    robot,
                    point,
                    self.config.category.as_str(),
                    Ghost(before),
                );
            }
        }
        assert(all.take(all.len() as int) == all);
        EntityCollection { components }
    }

    /// Makes a component of every robot that the answers to the discovery query tell of.
    pub fn discover(&self, query: Result<Vec<Reply>, String>) -> (result: Result<
        EntityCollection<ZenohDataProvider>,
        DiscoveryError,
    >)
        ensures
            match query {
                Ok(replies) => result matches Ok(found) && lists_robots(
                    found.components@,
                    discovered(self.config, announcements_in(replies@)),
                    self.config.category@,
                ),
                Err(text) => result matches Err(error) && error.text() == text@,
            },
    {
        match query {
            Ok(replies) => Ok(self.collect(&announcements(&replies))),
            Err(text) => Err(DiscoveryError::Other(text)),
        }
    }
}

/// A sample of a read: its key, and the document that stands for its payload.
#[derive(Debug)]
pub struct Reading {
    pub key: String,
    pub document: serde_json::Value,
}

impl View for Reading {
    type V = (Seq<char>, json::Json);

    open spec fn view(&self) -> (Seq<char>, json::Json) {
        (self.key@, json::json(self.document))
    }
}

/// The views of a list of readings.
pub open spec fn reading_views(list: Seq<Reading>) -> Seq<(Seq<char>, json::Json)> {
    list.map_values(|r: Reading| r@)
}

/// The readings among the answers to a query, in order; answers without a value are none.
pub open spec fn readings_in(replies: Seq<Reply>) -> Seq<(Seq<char>, json::Json)>
    decreases replies.len(),
{
    if replies.len() == 0 {
        Seq::empty()
    } else {
        let before = readings_in(replies.drop_last());
        match replies.last() {
            Reply::Sample { key, payload } => before.push((key@, json::payload_document(payload@))),
            Reply::Failed => before,
        }
    }
}

/// The data of each reading under its data id; a later reading replaces an earlier one.
pub open spec fn gathered(robot: Seq<char>, readings: Seq<(Seq<char>, json::Json)>) -> Map<
    Seq<char>,
    json::Json,
>
    decreases readings.len(),
{
    if readings.len() == 0 {
        Map::empty()
    } else {
        let (key, document) = readings.last();
        gathered(robot, readings.drop_last()).insert(
            key_data_id(robot, key),
            json::envelope_data_spec(document),
        )
    }
}

/// What a read of `id` gives once the readings are there.
pub open spec fn assembled(
    robot: Seq<char>,
    id: Seq<char>,
    readings: Seq<(Seq<char>, json::Json)>,
) -> Access {
    let data = gathered(robot, readings);
    if id == "telemetry"@ {
        Access::Document(json::Json::Object(data))
    } else if readings.len() == 0 {
        Access::NotFound("No data found for "@ + id + " in Zenoh"@)
    } else {
        Access::Document(json::member_or_all_spec(data, id))
    }
}

/// Takes the readings out of the answers to a query.
pub fn readings(replies: &Vec<Reply>) -> (result: Vec<Reading>)
    ensures
        reading_views(result@) == readings_in(replies@),
{
    let mut result: Vec<Reading> = Vec::new();
    for i in 0..replies.len()
        invariant
            reading_views(result@) == readings_in(replies@.take(i as int)),
    {
        assert(replies@.take(i as int + 1).drop_last() == replies@.take(i as int));
        match &replies[i] {
            Reply::Sample { key, payload } => {
                let ghost before = reading_views(result@);
                let document = json::read_payload(payload.as_slice());
                result.push(Reading { key: key.clone(), document });
                assert(reading_views(result@) == before.push(result@.last()@));
            },
            Reply::Failed => {},
        }
    }
    assert(replies@.take(replies@.len() as int) == replies@);
    result
}

impl ZenohDataProvider {
    /// Whether the robot has the data point `id`.
    pub open spec fn has_point(self, id: Seq<char>) -> bool {
        exists|i: int| 0 <= i < self.data_points@.len() && (#[trigger] self.data_points@[i]).id@ == id
    }

    /// The key that a read of `id` queries, or `None` where there is no such data.
    pub open spec fn query_key(self, id: Seq<char>) -> Option<Seq<char>> {
        if id == "telemetry"@ {
            Some(self.robot_name@ + "/**"@)
        } else if self.has_point(id) {
            Some(self.robot_name@ + "/"@ + text::replaced(id, '_', '/'))
        } else {
            None
        }
    }

    /// How a read of `id` ends, given how its query went.
    pub open spec fn read_access(self, id: Seq<char>, query: Result<Vec<Reply>, String>) -> Access {
        if self.query_key(id) is None {
            Access::NotFound(id)
        } else {
            match query {
                Ok(replies) => assembled(self.robot_name@, id, readings_in(replies@)),
                Err(text) => Access::Internal(text@),
            }
        }
    }

    /// Whether `list` is the listing of the robot: the robot as a whole, then every data point,
    /// nothing of it writable.
    pub open spec fn is_listing(self, list: Seq<Metadata>) -> bool {
        &&& list.len() == self.data_points@.len() + 1
        &&& list[0].describes(
            "telemetry"@,
            self.robot_name@ + " All Telemetry"@,
            self.fallback_category@,
            false,
        )
        &&& forall|i: int|
            1 <= i < list.len() ==> (#[trigger] list[i]).describes(
                self.data_points@[i - 1].id@,
                self.data_points@[i - 1].name@,
                self.data_points@[i - 1].category@,
                false,
            )
    }

    /// Lists the robot as a whole, then every data point. Nothing is writable.
    pub fn list(&self, _filter: DataFilter) -> (result: Result<Vec<Metadata>, DataError>)
        ensures
            result matches Ok(list) && self.is_listing(list@),
    {
        let mut metadata: Vec<Metadata> = Vec::new();
        metadata.push(
            Metadata::readable(
                "telemetry".to_owned(),
                self.robot_name.clone().concat(" All Telemetry"),
                self.fallback_category.clone(),
                false,
            ),
        );
        for i in 0..self.data_points.len()
            invariant
                metadata.len() == i + 1,
                metadata[0].describes(
                    "telemetry"@,
                    self.robot_name@ + " All Telemetry"@,
                    self.fallback_category@,
                    false,
                ),
                forall|j: int|
                    1 <= j <= i ==> (#[trigger] metadata[j]).describes(
                        self.data_points[j - 1].id@,
                        self.data_points[j - 1].name@,
                        self.data_points[j - 1].category@,
                        false,
                    ),
        {
            let point = &self.data_points[i];
            metadata.push(
                Metadata::readable(
                    point.id.clone(),
                    point.name.clone(),
                    point.category.clone(),
                    false,
                ),
            );
        }
        Ok(metadata)
    }

    /// The key to query for a read of `data_id`.
    pub fn read_query(&self, data_id: &str) -> (result: Result<String, DataError>)
        ensures
            match self.query_key(data_id@) {
                Some(key) => result matches Ok(found) && found@ == key,
                None => result matches Err(DataError::NotFound(text)) && text@ == data_id@,
            },
    {
        if text::same(data_id, "telemetry") {
            Ok(self.robot_name.clone().concat("/**"))
        } else if position(&self.data_points, data_id).is_some() {
            let path = text::replace_char(data_id, '_', '/');
            Ok(self.robot_name.clone().concat("/").concat(path.as_str()))
        } else {
            Err(DataError::NotFound(data_id.to_owned()))
        }
    }

    /// Makes the value of `data_id` out of the readings for it.
    pub fn assemble(&self, data_id: &str, readings: Vec<Reading>) -> (result: Result<
        Data,
        DataError,
    >)
        ensures
            access_of(result) == assembled(self.robot_name@, data_id@, reading_views(readings@)),
            result matches Ok(found) ==> found.schema is None,
    {
        let ghost all = reading_views(readings@);
        let found_any = readings.len() > 0;
        let mut data_map = json::empty_map();
        for reading in it: readings
            invariant
                it.seq() == readings@,
                all == reading_views(readings@),
                json::members(data_map) == gathered(self.robot_name@, all.take(it.index() as int)),
        {
            let ghost i = it.index() as int;
            assert(all.take(i + 1).drop_last() == all.take(i));
            let id = data_id_of(self.robot_name.as_str(), reading.key.as_str());
            json::insert(&mut data_map, id, json::envelope_data(reading.document));
        }
        assert(all.take(all.len() as int) == all);
        let is_telemetry = text::same(data_id, "telemetry");
        if !found_any && !is_telemetry {
            let message = "No data found for ".to_owned().concat(data_id).concat(" in Zenoh");
            return Err(DataError::NotFound(message));
        }
        let data = if is_telemetry {
            json::object(data_map)
        } else {
            json::member_or_all(data_map, data_id)
        };
        Ok(Data { data, schema: None })
    }

    /// Reads `data_id`, given how the query for it went.
    pub fn read(
        &self,
        data_id: &str,
        _include_schema: bool,
        query: Result<Vec<Reply>, String>,
    ) -> (result: Result<Data, DataError>)
        ensures
            access_of(result) == self.read_access(data_id@, query),
            result matches Ok(found) ==> found.schema is None,
    {
        match self.read_query(data_id) {
            Ok(_) => {},
            Err(error) => return Err(error),
        }
        match query {
            Ok(replies) => self.assemble(data_id, readings(&replies)),
            Err(text) => Err(DataError::Internal(text)),
        }
    }

    /// Refuses every write: a robot that answers queries takes none.
    pub fn write(&self, _data_id: &str, _value: serde_json::Value) -> (result: Result<(), DataError>)
        ensures
            result matches Err(DataError::Internal(text)) && text@
                == "Writing to Zenoh queryables is not supported"@,
    {
        Err(DataError::Internal("Writing to Zenoh queryables is not supported".to_owned()))
    }
}

}
