//! What holds of discovery, listing, reading, writing and setting up taken together.

pub mod connecting;
pub mod discovering;
pub mod keys;
pub mod listing;
pub mod payloads;
pub mod reading;
pub mod securing;

use vstd::prelude::*;

use crate::cli::TlsArgs;
use crate::entity::{Access, Component, Metadata, Reply};
use crate::json;
use crate::session;
use crate::text;
use crate::tls;
use crate::zenoh as query;
use crate::zenoh_pub_sub as pub_sub;

verus! {

/// A read of a discovered data point queries the very key that announced it, exactly where the
/// key starts with the robot's name, the rest of it holds no underscore, and the id is not the
/// one reserved for the robot as a whole.
pub proof fn law_point_is_queried_where_announced(
    config: query::ZenohConfig,
    key: Seq<char>,
    document: Option<json::Json>,
    robot: Seq<char>,
    point: query::DataPoint,
    provider: query::ZenohDataProvider,
)
    requires
        query::announced(config, key, document) == Some((robot, point)),
        provider.robot_name@ == robot,
        provider.has_point(point.id),
    ensures
        provider.query_key(point.id) == Some(key) <==> {
            &&& robot.push('/').is_prefix_of(key)
            &&& !query::relative_key(robot, key).contains('_')
            &&& point.id != "telemetry"@
        },
{
    reveal_strlit("/");
    reveal_strlit("/**");
    let rest = query::relative_key(robot, key);
    if point.id == "telemetry"@ {
        let asked = robot + "/**"@;
        assert(asked[asked.len() - 1] == '*');
    } else {
        let asked = robot + "/"@ + text::replaced(point.id, '_', '/');
        text::lemma_replaced_back(rest, '/', '_');
        if robot.push('/').is_prefix_of(key) {
            assert(key =~= robot.push('/') + rest);
            assert(robot + "/"@ =~= robot.push('/'));
            if asked == key {
                assert(asked.skip(robot.len() as int + 1) =~= text::replaced(point.id, '_', '/'));
            }
        } else {
            assert(asked.len() == robot.len() + 1 + key.len());
        }
    }
}

/// Where the first part of a key names the robot, the key starts with the robot's name as soon as
/// it has a second part.
pub proof fn law_first_part_leads_the_key(
    config: query::ZenohConfig,
    key: Seq<char>,
    document: Option<json::Json>,
    robot: Seq<char>,
    point: query::DataPoint,
)
    requires
        config.robot_name_index == 0,
        query::announced(config, key, document) == Some((robot, point)),
    ensures
        robot.push('/').is_prefix_of(key) <==> key.contains('/'),
{
    text::lemma_first_segment(key, '/');
    if robot.push('/').is_prefix_of(key) {
        assert(robot.push('/')[robot.len() as int] == '/');
        assert(key[robot.len() as int] == '/');
    }
}

/// An answer on the key that a read queries is filed under the id that was read, exactly where
/// the id holds no slash.
pub proof fn law_query_key_leads_back_to_its_id(
    provider: query::ZenohDataProvider,
    id: Seq<char>,
    key: Seq<char>,
)
    requires
        provider.query_key(id) == Some(key),
        id != "telemetry"@,
    ensures
        query::key_data_id(provider.robot_name@, key) == id <==> !id.contains('/'),
{
    reveal_strlit("/");
    let robot = provider.robot_name@;
    let path = text::replaced(id, '_', '/');
    assert(robot + "/"@ =~= robot.push('/'));
    assert(robot.push('/') =~= key.subrange(0, robot.len() as int + 1));
    assert(query::relative_key(robot, key) =~= path);
    text::lemma_replaced_back(id, '_', '/');
}

/// What `gathered` holds under an id is the data of the last reading for it.
pub proof fn lemma_gathered_last(
    robot: Seq<char>,
    id: Seq<char>,
    readings: Seq<(Seq<char>, json::Json)>,
    at: int,
)
    requires
        0 <= at < readings.len(),
        query::key_data_id(robot, readings[at].0) == id,
        forall|j: int|
            at < j < readings.len() ==> query::key_data_id(robot, #[trigger] readings[j].0) != id,
    ensures
        query::gathered(robot, readings).contains_key(id),
        query::gathered(robot, readings)[id] == json::envelope_data_spec(readings[at].1),
    decreases readings.len(),
{
    if at < readings.len() - 1 {
        let before = readings.drop_last();
        assert(query::key_data_id(robot, readings[readings.len() - 1].0) != id);
        assert forall|j: int| at < j < before.len() implies query::key_data_id(
            robot,
            #[trigger] before[j].0,
        ) != id by {
            assert(before[j] == readings[j]);
        }
        lemma_gathered_last(robot, id, before, at);
    }
}

/// Among several answers for a data point, the last one is the value that is read.
pub proof fn law_last_reading_wins(
    robot: Seq<char>,
    id: Seq<char>,
    readings: Seq<(Seq<char>, json::Json)>,
    at: int,
)
    requires
        id != "telemetry"@,
        0 <= at < readings.len(),
        query::key_data_id(robot, readings[at].0) == id,
        forall|j: int|
            at < j < readings.len() ==> query::key_data_id(robot, #[trigger] readings[j].0) != id,
    ensures
        query::assembled(robot, id, readings) == Access::Document(
            json::envelope_data_spec(readings[at].1),
        ),
{
    lemma_gathered_last(robot, id, readings, at);
}

/// A read of a data point whose query is answered once, on the key that it asked for, gives the
/// data of that answer.
pub proof fn law_single_answer_is_read(
    provider: query::ZenohDataProvider,
    id: Seq<char>,
    key: String,
    payload: Vec<u8>,
    replies: Vec<Reply>,
)
    requires
        provider.has_point(id),
        id != "telemetry"@,
        !id.contains('/'),
        provider.query_key(id) == Some(key@),
        replies@ == seq![Reply::Sample { key, payload }],
    ensures
        provider.read_access(id, Ok(replies)) == Access::Document(
            json::envelope_data_spec(json::payload_document(payload@)),
        ),
{
    let readings = query::readings_in(replies@);
    assert(replies@.drop_last() =~= Seq::empty());
    assert(query::readings_in(replies@.drop_last()) =~= Seq::empty());
    assert(readings =~= seq![(key@, json::payload_document(payload@))]);
    law_query_key_leads_back_to_its_id(provider, id, key@);
    law_last_reading_wins(provider.robot_name@, id, readings, 0);
}

/// A read of the robot as a whole is never missing: whatever was answered, it is one object with
/// the data of all answers.
pub proof fn law_telemetry_is_always_there(provider: query::ZenohDataProvider, replies: Vec<Reply>)
    ensures
        provider.read_access("telemetry"@, Ok(replies)) == Access::Document(
            json::Json::Object(
                query::gathered(provider.robot_name@, query::readings_in(replies@)),
            ),
        ),
{
}

/// Once an answer has come, no payload makes a read fail: what is no JSON is a value too.
pub proof fn law_any_payload_is_a_value(
    robot: Seq<char>,
    id: Seq<char>,
    readings: Seq<(Seq<char>, json::Json)>,
    provider: pub_sub::ZenohDataProvider,
    payload: Vec<u8>,
)
    requires
        readings.len() > 0,
    ensures
        query::assembled(robot, id, readings) is Document,
        provider.read_access(id, pub_sub::Delivery::Received(payload)) is Document,
{
}

/// An id can be read exactly where the listing holds it.
pub proof fn law_listed_is_readable(
    provider: query::ZenohDataProvider,
    list: Seq<Metadata>,
    id: Seq<char>,
)
    requires
        provider.is_listing(list),
    ensures
        provider.query_key(id) is Some <==> exists|i: int|
            0 <= i < list.len() && (#[trigger] list[i]).id@ == id,
{
    if id == "telemetry"@ {
        assert(list[0].id@ == id);
    } else if provider.has_point(id) {
        let i = choose|i: int|
            0 <= i < provider.data_points@.len() && (#[trigger] provider.data_points@[i]).id@ == id;
        assert(list[i + 1].id@ == id);
    }
}

/// Nothing in a listing of a robot that answers queries is writable, and all of it is readable.
pub proof fn law_listing_is_read_only(
    provider: query::ZenohDataProvider,
    list: Seq<Metadata>,
    i: int,
)
    requires
        provider.is_listing(list),
        0 <= i < list.len(),
    ensures
        list[i].is_readable,
        !list[i].is_writable,
{
}

/// A discovered robot serves exactly the data points that were announced for it.
pub proof fn law_component_serves_what_was_announced(
    components: Seq<Component<query::ZenohDataProvider>>,
    robots: query::Robots,
    category: Seq<char>,
    i: int,
    id: Seq<char>,
)
    requires
        query::lists_robots(components, robots, category),
        0 <= i < components.len(),
    ensures
        robots.contains_key(components[i].id@),
        components[i].data_provider.has_point(id) <==> robots[components[i].id@].contains_key(id),
{
    let points = components[i].data_provider.data_points@;
    assert(robots.contains_key(components[i].id@));
    if components[i].data_provider.has_point(id) {
        let j = choose|j: int| 0 <= j < points.len() && (#[trigger] points[j]).id@ == id;
        assert(points[j].id@ == id);
    }
}

/// Every discovered robot has at least one data point; its name holds no slash and no wildcard,
/// and its data ids are never empty and hold neither of them either.
pub proof fn law_discovered_names_are_plain(
    config: query::ZenohConfig,
    announcements: Seq<(Seq<char>, Option<json::Json>)>,
    robot: Seq<char>,
)
    requires
        query::discovered(config, announcements).contains_key(robot),
    ensures
        !robot.contains('/'),
        !robot.contains('*'),
        exists|id: Seq<char>| #[trigger]
            query::discovered(config, announcements)[robot].contains_key(id),
        forall|id: Seq<char>| #[trigger]
            query::discovered(config, announcements)[robot].contains_key(id) ==> {
                &&& query::discovered(config, announcements)[robot][id].id == id
                &&& id.len() > 0
                &&& !id.contains('/')
                &&& !id.contains('*')
            },
    decreases announcements.len(),
{
    let before = query::discovered(config, announcements.drop_last());
    let (key, document) = announcements.last();
    if before.contains_key(robot) {
        law_discovered_names_are_plain(config, announcements.drop_last(), robot);
    }
    if let Some((found, point)) = query::announced(config, key, document) {
        let now = query::discovered(config, announcements);
        if found == robot {
            text::lemma_segments(key, '/');
            let rest = query::relative_key(robot, key);
            text::lemma_replaced_lacks(rest, '/', '_');
            assert(!point.id.contains('*')) by {
                if point.id.contains('*') {
                    let i = choose|i: int| 0 <= i < point.id.len() && point.id[i] == '*';
                    assert(rest[i] == '*');
                    assert(key.contains(rest[i]));
                }
            }
            assert(now[robot].contains_key(point.id));
            assert(!text::segments(key, '/')[config.robot_name_index as int].contains('/'));
            assert(!text::segments(key, '/')[config.robot_name_index as int].contains('*'));
        }
    }
}

/// One more announcement adds or replaces its own data point and leaves all others as they were.
pub proof fn law_announcement_changes_its_own_point(
    config: query::ZenohConfig,
    announcements: Seq<(Seq<char>, Option<json::Json>)>,
    key: Seq<char>,
    document: Option<json::Json>,
    robot: Seq<char>,
    point: query::DataPoint,
)
    requires
        query::announced(config, key, document) == Some((robot, point)),
    ensures
        ({
            let before = query::discovered(config, announcements);
            let after = query::discovered(config, announcements.push((key, document)));
            &&& after.contains_key(robot) && after[robot].contains_key(point.id)
            &&& after[robot][point.id] == point
            &&& forall|other: Seq<char>, id: Seq<char>|
                (other != robot || id != point.id) ==> {
                    &&& (#[trigger] after[other].contains_key(id) && after.contains_key(other)
                        <==> before[other].contains_key(id) && before.contains_key(other))
                    &&& after.contains_key(other) && after[other].contains_key(id)
                        ==> after[other][id] == before[other][id]
                }
        }),
{
    assert(announcements.push((key, document)).drop_last() =~= announcements);
}

/// No announced data point is lost, though a later announcement may have described it anew.
pub proof fn law_announced_points_are_discovered(
    config: query::ZenohConfig,
    announcements: Seq<(Seq<char>, Option<json::Json>)>,
    i: int,
    robot: Seq<char>,
    point: query::DataPoint,
)
    requires
        0 <= i < announcements.len(),
        query::announced(config, announcements[i].0, announcements[i].1) == Some((robot, point)),
    ensures
        query::discovered(config, announcements).contains_key(robot),
        query::discovered(config, announcements)[robot].contains_key(point.id),
    decreases announcements.len(),
{
    if i < announcements.len() - 1 {
        law_announced_points_are_discovered(config, announcements.drop_last(), i, robot, point);
    }
}

/// No data point is made up: each one is as some announcement described it.
pub proof fn law_discovered_points_were_announced(
    config: query::ZenohConfig,
    announcements: Seq<(Seq<char>, Option<json::Json>)>,
    robot: Seq<char>,
    id: Seq<char>,
)
    requires
        query::discovered(config, announcements).contains_key(robot),
        query::discovered(config, announcements)[robot].contains_key(id),
    ensures
        exists|i: int|
            0 <= i < announcements.len() && query::announced(
                config,
                (#[trigger] announcements[i]).0,
                announcements[i].1,
            ) == Some((robot, query::discovered(config, announcements)[robot][id])),
    decreases announcements.len(),
{
    let now = query::discovered(config, announcements)[robot][id];
    let last = announcements.len() - 1;
    let before = announcements.drop_last();
    let announced = query::announced(config, announcements[last].0, announcements[last].1);
    if announced != Some((robot, now)) {
        law_discovered_points_were_announced(config, before, robot, id);
        let i = choose|i: int|
            0 <= i < before.len() && query::announced(
                config,
                (#[trigger] before[i]).0,
                before[i].1,
            ) == Some((robot, query::discovered(config, before)[robot][id]));
        assert(announcements[i] == before[i]);
    }
}

/// From discovery to read: a sample whose key starts with the robot's name, goes on without an
/// underscore and does not spell the reserved id makes a component with a data point whose read
/// queries that key.
pub proof fn law_discovery_leads_to_a_read(
    config: query::ZenohConfig,
    announcements: Seq<(Seq<char>, Option<json::Json>)>,
    components: Seq<Component<query::ZenohDataProvider>>,
    i: int,
    robot: Seq<char>,
    point: query::DataPoint,
)
    requires
        query::lists_robots(
            components,
            query::discovered(config, announcements),
            config.category@,
        ),
        0 <= i < announcements.len(),
        query::announced(config, announcements[i].0, announcements[i].1) == Some((robot, point)),
        robot.push('/').is_prefix_of(announcements[i].0),
        !query::relative_key(robot, announcements[i].0).contains('_'),
        point.id != "telemetry"@,
    ensures
        exists|c: int|
            0 <= c < components.len() && (#[trigger] components[c]).id@ == robot
                && components[c].data_provider.query_key(point.id) == Some(announcements[i].0),
{
    law_announced_points_are_discovered(config, announcements, i, robot, point);
    let c = choose|c: int| 0 <= c < components.len() && (#[trigger] components[c]).id@ == robot;
    law_component_serves_what_was_announced(
        components,
        query::discovered(config, announcements),
        config.category@,
        c,
        point.id,
    );
    law_point_is_queried_where_announced(
        config,
        announcements[i].0,
        announcements[i].1,
        robot,
        point,
        components[c].data_provider,
    );
}

/// Answers that carry an error instead of a value change nothing.
pub proof fn law_failed_answers_change_nothing(replies: Seq<Reply>, robot_name_index: nat)
    ensures
        query::announcements_in(replies) == query::announcements_in(
            replies.filter(|r: Reply| r is Sample),
        ),
        query::readings_in(replies) == query::readings_in(replies.filter(|r: Reply| r is Sample)),
        pub_sub::discovered(robot_name_index, replies) == pub_sub::discovered(
            robot_name_index,
            replies.filter(|r: Reply| r is Sample),
        ),
    decreases replies.len(),
{
    reveal(Seq::filter);
    if replies.len() > 0 {
        let kept = replies.filter(|r: Reply| r is Sample);
        let before = replies.drop_last().filter(|r: Reply| r is Sample);
        law_failed_answers_change_nothing(replies.drop_last(), robot_name_index);
        if replies.last() is Sample {
            assert(kept == before.push(replies.last()));
            assert(kept.drop_last() =~= before);
        } else {
            assert(kept == before);
        }
    }
}

/// Where the first part of a token's key names the robot, the data point is read and written on
/// the token's own key, exactly where the rest of the key holds no underscore.
pub proof fn law_token_key_is_the_data_key(
    key: Seq<char>,
    robot: Seq<char>,
    id: Seq<char>,
    provider: pub_sub::ZenohDataProvider,
)
    requires
        pub_sub::announced(0, key) == Some((robot, id)),
        provider.key_prefix@ == robot,
    ensures
        provider.data_key(id) == key <==> !key.skip(robot.len() as int + 1).contains('_'),
{
    reveal_strlit("/");
    let parts = text::segments(key, '/');
    let rest = key.skip(robot.len() as int + 1);
    text::lemma_segments(key, '/');
    text::lemma_first_segment(key, '/');
    assert(parts.remove(0) =~= parts.skip(1));
    if !key.contains('/') {
        assert(parts.skip(1) =~= Seq::empty());
    }
    assert forall|i: int| 0 <= i < parts.skip(1).len() implies !(#[trigger] parts.skip(
        1,
    )[i]).contains('/') by {
        assert(parts.skip(1)[i] == parts[i + 1]);
    }
    text::lemma_joined_replaced(parts.skip(1), '/', '_');
    assert(id == text::replaced(rest, '/', '_'));
    text::lemma_replaced_back(rest, '/', '_');
    assert(robot + "/"@ =~= robot.push('/'));
    assert(key =~= robot.push('/') + rest);
    let data_key = robot.push('/') + text::replaced(id, '_', '/');
    if data_key == key {
        assert(data_key.skip(robot.len() as int + 1) =~= text::replaced(id, '_', '/'));
    }
}

/// Every token among the answers is found again: its robot is discovered, with its data id.
pub proof fn law_tokens_are_discovered(
    robot_name_index: nat,
    replies: Seq<Reply>,
    i: int,
    robot: Seq<char>,
    id: Seq<char>,
)
    requires
        0 <= i < replies.len(),
        replies[i] matches Reply::Sample { key, .. } && pub_sub::announced(
            robot_name_index,
            key@,
        ) == Some((robot, id)),
    ensures
        pub_sub::discovered(robot_name_index, replies).contains_key(robot),
        pub_sub::discovered(robot_name_index, replies)[robot].contains(id),
    decreases replies.len(),
{
    let before = pub_sub::discovered(robot_name_index, replies.drop_last());
    let after = pub_sub::discovered(robot_name_index, replies);
    if i == replies.len() - 1 {
        assert(after[robot].last() == id);
    } else {
        law_tokens_are_discovered(robot_name_index, replies.drop_last(), i, robot, id);
        let at = before[robot].index_of(id);
        assert(after[robot][at] == id);
    }
}

/// Every robot and data id that is discovered comes from a token among the answers.
pub proof fn law_discovered_ids_have_tokens(
    robot_name_index: nat,
    replies: Seq<Reply>,
    robot: Seq<char>,
    id: Seq<char>,
)
    requires
        pub_sub::discovered(robot_name_index, replies).contains_key(robot),
        pub_sub::discovered(robot_name_index, replies)[robot].contains(id),
    ensures
        exists|i: int|
            0 <= i < replies.len() && (#[trigger] replies[i] matches Reply::Sample { key, .. }
                && pub_sub::announced(robot_name_index, key@) == Some((robot, id))),
    decreases replies.len(),
{
    let rest = replies.drop_last();
    let before = pub_sub::discovered(robot_name_index, rest);
    if before.contains_key(robot) && before[robot].contains(id) {
        law_discovered_ids_have_tokens(robot_name_index, rest, robot, id);
        let i = choose|i: int|
            0 <= i < rest.len() && (#[trigger] rest[i] matches Reply::Sample { key, .. }
                && pub_sub::announced(robot_name_index, key@) == Some((robot, id)));
        assert(replies[i] == rest[i]);
    } else {
        let ids = pub_sub::discovered(robot_name_index, replies)[robot];
        let at = ids.index_of(id);
        if before.contains_key(robot) && at < before[robot].len() {
            assert(before[robot][at] == id);
        }
        assert(replies[replies.len() - 1] == replies.last());
    }
}

/// From token to data: where the first part of a token's key names the robot and the rest of the
/// key holds no underscore, discovery makes a component of the robot with a data point that is read
/// and written on the token's own key.
pub proof fn law_token_leads_to_its_data(
    replies: Seq<Reply>,
    components: Seq<Component<pub_sub::ZenohDataProvider>>,
    i: int,
    key: String,
    payload: Vec<u8>,
    robot: Seq<char>,
    id: Seq<char>,
)
    requires
        pub_sub::lists_robots(components, pub_sub::discovered(0, replies)),
        0 <= i < replies.len(),
        replies[i] == (Reply::Sample { key, payload }),
        pub_sub::announced(0, key@) == Some((robot, id)),
        !key@.skip(robot.len() as int + 1).contains('_'),
    ensures
        exists|c: int, p: int|
            0 <= c < components.len() && components[c].id@ == robot && 0 <= p
                < components[c].data_provider.data_points.len()
                && (#[trigger] components[c].data_provider.data_points[p]).0@ == id
                && components[c].data_provider.data_key(id) == key@,
{
    law_tokens_are_discovered(0, replies, i, robot, id);
    let ids = pub_sub::discovered(0, replies)[robot];
    let c = choose|c: int| 0 <= c < components.len() && (#[trigger] components[c]).id@ == robot;
    let provider = components[c].data_provider;
    law_token_key_is_the_data_key(key@, robot, id, provider);
    let p = ids.index_of(id);
    assert(provider.data_points@[p].0@ == id);
    assert(components[c].data_provider.data_points[p].0@ == id);
}

/// Every robot found by its tokens has at least one data point; its name holds no slash, and its
/// data ids are never empty and hold none either.
pub proof fn law_token_names_are_plain(robot_name_index: nat, replies: Seq<Reply>, robot: Seq<char>)
    requires
        pub_sub::discovered(robot_name_index, replies).contains_key(robot),
    ensures
        !robot.contains('/'),
        pub_sub::discovered(robot_name_index, replies)[robot].len() > 0,
        forall|i: int|
            0 <= i < pub_sub::discovered(robot_name_index, replies)[robot].len() ==> {
                &&& (#[trigger] pub_sub::discovered(robot_name_index, replies)[robot][i]).len() > 0
                &&& !pub_sub::discovered(robot_name_index, replies)[robot][i].contains('/')
            },
    decreases replies.len(),
{
    let before = pub_sub::discovered(robot_name_index, replies.drop_last());
    if before.contains_key(robot) {
        law_token_names_are_plain(robot_name_index, replies.drop_last(), robot);
    }
    if let Reply::Sample { key, .. } = replies.last() {
        if let Some((found, id)) = pub_sub::announced(robot_name_index, key@) {
            if found == robot {
                let parts = text::segments(key@, '/');
                let others = parts.remove(robot_name_index as int);
                text::lemma_segments(key@, '/');
                assert(!parts[robot_name_index as int].contains('/'));
                assert forall|i: int| 0 <= i < others.len() implies !(
                #[trigger] others[i]).contains('/') by {
                    if i < robot_name_index {
                        assert(others[i] == parts[i]);
                    } else {
                        assert(others[i] == parts[i + 1]);
                    }
                }
                text::lemma_joined_replaced(others, '/', '_');
                text::lemma_replaced_lacks(text::joined(others, '/'), '/', '_');
            }
        }
    }
}

/// One more token adds one data point, behind those that its robot already has, and leaves all
/// other robots as they were.
pub proof fn law_token_adds_one_point(
    robot_name_index: nat,
    replies: Seq<Reply>,
    key: String,
    payload: Vec<u8>,
    robot: Seq<char>,
    id: Seq<char>,
)
    requires
        pub_sub::announced(robot_name_index, key@) == Some((robot, id)),
    ensures
        ({
            let before = pub_sub::discovered(robot_name_index, replies);
            let after = pub_sub::discovered(
                robot_name_index,
                replies.push(Reply::Sample { key, payload }),
            );
            &&& after.contains_key(robot)
            &&& before.contains_key(robot) ==> after[robot] == before[robot].push(id)
            &&& !before.contains_key(robot) ==> after[robot] == seq![id]
            &&& after.remove(robot) == before.remove(robot)
        }),
{
    let before = pub_sub::discovered(robot_name_index, replies);
    let after = pub_sub::discovered(
        robot_name_index,
        replies.push(Reply::Sample { key, payload }),
    );
    assert(replies.push(Reply::Sample { key, payload }).drop_last() =~= replies);
    assert(after.remove(robot) =~= before.remove(robot));
    assert(Seq::empty().push(id) =~= seq![id]);
}

/// Where the first part of a key names the robot, both kinds of discovery read the same robot and
/// the same data id from a key with two parts or more and without a wildcard.
pub proof fn law_both_discoveries_agree(
    config: query::ZenohConfig,
    key: Seq<char>,
    document: Option<json::Json>,
)
    requires
        config.robot_name_index == 0,
        key.contains('/'),
        !key.contains('*'),
    ensures
        match (query::announced(config, key, document), pub_sub::announced(0, key)) {
            (Some((robot, point)), Some((other, id))) => robot == other && point.id == id,
            (None, None) => true,
            _ => false,
        },
{
    let parts = text::segments(key, '/');
    text::lemma_segments(key, '/');
    text::lemma_first_segment(key, '/');
    assert(parts.remove(0) =~= parts.skip(1));
    assert forall|i: int| 0 <= i < parts.skip(1).len() implies !(#[trigger] parts.skip(
        1,
    )[i]).contains('/') by {
        assert(parts.skip(1)[i] == parts[i + 1]);
    }
    text::lemma_joined_replaced(parts.skip(1), '/', '_');
}

/// Clients need a certificate exactly where client CA files are given, and there is always a root
/// to check it against; the server always has a certificate to present.
pub proof fn law_client_certificates_follow_the_ca_files(
    args: TlsArgs,
    files: Seq<tls::PemFile>,
    server: tls::Serving,
)
    requires
        args.server(files) == Ok::<Option<tls::Serving>, tls::TlsError>(Some(server)),
    ensures
        server.client_roots is Some <==> args.client_ca@.len() > 0,
        server.client_roots matches Some(roots) ==> roots.len() > 0,
        server.chain.len() > 0,
{
}

/// Certificate and key go together: with neither there is no TLS and no error, with only one of
/// them there is the error that says so, and that error has no other cause.
pub proof fn law_certificate_and_key_go_together(
    args: TlsArgs,
    files: Seq<tls::PemFile>,
)
    ensures
        args.server(files) == Ok::<Option<tls::Serving>, tls::TlsError>(None)
            <==> args.cert is None && args.key is None,
        args.server(files) == Err::<Option<tls::Serving>, tls::TlsError>(
            tls::TlsError::CertAndKeyRequired,
        ) <==> args.cert is None != args.key is None,
{
    let paths = args.client_ca@;
    lemma_roots_from_errors(paths, files.skip(2));
}

/// What goes wrong in the client CA files is about reading, parsing or trusting them.
proof fn lemma_roots_from_errors(
    paths: Seq<std::path::PathBuf>,
    files: Seq<tls::PemFile>,
)
    ensures
        tls::roots_from(paths, files) matches Err(error) ==> error != tls::TlsError::CertAndKeyRequired,
    decreases paths.len(),
{
    if paths.len() > 0 {
        lemma_roots_from_errors(paths.drop_last(), files.drop_last());
        if let tls::PemFile::Opened { bytes, broken } = files.last() {
            if let Ok(before) = tls::roots_from(paths.drop_last(), files.drop_last()) {
                lemma_roots_with_errors(before, paths.last(), tls::sections_of(bytes@, broken));
            }
        }
    }
}

/// What goes wrong in one client CA file is about parsing or trusting it.
proof fn lemma_roots_with_errors(
    roots: Seq<rustls::pki_types::TrustAnchor<'static>>,
    path: std::path::PathBuf,
    sections: Seq<tls::PemCertificate>,
)
    ensures
        tls::roots_with(roots, path, sections) matches Err(error) ==> error
            != tls::TlsError::CertAndKeyRequired,
    decreases sections.len(),
{
    if sections.len() > 0 {
        lemma_roots_with_errors(roots, path, sections.drop_last());
    }
}

/// Configuring the session ends with the first setting that is refused: where the mode can only be
/// refused, in a refusal of the mode, and where it can only be accepted, in what came of setting the
/// endpoint. A configuration comes out only with both settings accepted.
pub proof fn law_first_refusal_is_reported(
    base: ::zenoh::Config,
    endpoint: Seq<char>,
    result: Result<::zenoh::Config, String>,
)
    requires
        session::client_of(base, endpoint, session::end_of(result)),
    ensures
        (forall|client: ::zenoh::Config|
            !(#[trigger] session::mode_outcomes(base).contains(Ok(client)))) ==> (
        result matches Err(text) && session::mode_outcomes(base).contains(Err(text@))),
        (result is Ok || forall|text: Seq<char>|
            !(#[trigger] session::mode_outcomes(base).contains(Err(text)))) ==> exists|
            client: ::zenoh::Config|
            session::mode_outcomes(base).contains(Ok(client))
                && #[trigger] session::endpoint_outcomes(client, endpoint).contains(
                session::end_of(result),
            ),
{
}

/// A certificate file that could not be read to its end gives no chain. The error is that of the
/// reading, unless a section before it is in error.
pub proof fn law_interrupted_chain_is_no_chain(
    path: std::path::PathBuf,
    bytes: Vec<u8>,
    interruption: rustls::pki_types::pem::Error,
)
    ensures
        ({
            let file = tls::PemFile::Opened { bytes, broken: Some(interruption) };
            let found = tls::pem_certificates(tls::whole_lines(bytes@));
            &&& tls::chain_from(path, file) matches Err(tls::TlsError::ParseFile { .. })
            &&& (forall|i: int| 0 <= i < found.len() ==> #[trigger] found[i] is Ok)
                ==> tls::chain_from(path, file) == Err::<
                Seq<rustls::pki_types::CertificateDer<'static>>,
                tls::TlsError,
            >(tls::TlsError::ParseFile { path, source: interruption })
        }),
{
    let found = tls::pem_certificates(tls::whole_lines(bytes@));
    let sections = tls::cut_short(found, Some(interruption));
    assert(sections.drop_last() =~= found || sections.drop_last() =~= found.drop_last());
    assert(sections.last() == Err::<
        rustls::pki_types::CertificateDer<'static>,
        rustls::pki_types::pem::Error,
    >(interruption));
    if forall|i: int| 0 <= i < found.len() ==> #[trigger] found[i] is Ok {
        lemma_collected_of_certificates(found);
    }
}

/// Sections without an error are collected without an error.
proof fn lemma_collected_of_certificates(sections: Seq<tls::PemCertificate>)
    requires
        forall|i: int| 0 <= i < sections.len() ==> #[trigger] sections[i] is Ok,
    ensures
        tls::collected(sections) is Ok,
    decreases sections.len(),
{
    if sections.len() > 0 {
        assert(sections.last() is Ok);
        lemma_collected_of_certificates(sections.drop_last());
    }
}

/// What was read of an unfinished line before the reading broke off changes nothing.
pub proof fn law_unfinished_line_is_not_parsed(
    bytes: Seq<u8>,
    unfinished: Seq<u8>,
    interruption: rustls::pki_types::pem::Error,
)
    requires
        !unfinished.contains(10),
        !unfinished.contains(13),
    ensures
        tls::parsed_part(bytes + unfinished, Some(interruption)) == tls::parsed_part(
            bytes,
            Some(interruption),
        ),
    decreases unfinished.len(),
{
    if unfinished.len() == 0 {
        assert(bytes + unfinished =~= bytes);
    } else {
        let rest = unfinished.drop_last();
        let last = unfinished.last();
        assert(unfinished.contains(last));
        assert forall|b: u8| rest.contains(b) implies unfinished.contains(b) by {
            let i = rest.index_of(b);
            assert(unfinished[i] == b);
        }
        assert((bytes + unfinished).drop_last() =~= bytes + rest);
        law_unfinished_line_is_not_parsed(bytes, rest, interruption);
    }
}

}
