//! What discoveries find.

use vstd::prelude::*;

use crate::entity::{Component, DiscoveryError, EntityCollection, Reply};
use crate::json;
use crate::json::Json;
use crate::laws::keys::{
    lemma_part_exists, lemma_part_of_key, lemma_replacements, lemma_segment_count, spaced,
    stands_between, underscored,
};
use crate::laws::reading::{filed_under, lemma_filed};
use crate::text;
use crate::zenoh as query;
use crate::zenoh_pub_sub as pub_sub;

verus! {

/// Whether a document is an object that says `text` under `name`.
pub open spec fn says(document: Option<Json>, name: Seq<char>, text: Seq<char>) -> bool {
    document matches Some(Json::Object(fields)) && fields.contains_key(name) && fields[name]
        == Json::Text(text)
}

/// Whether a data point has the name that its document says, or else its id with spaces for
/// underscores, and, independent of that, the category that its document says, or else `fallback`.
pub open spec fn is_described(
    id: Seq<char>,
    name: Seq<char>,
    category: Seq<char>,
    document: Option<Json>,
    fallback: Seq<char>,
) -> bool {
    &&& forall|text: Seq<char>| #[trigger] says(document, "name"@, text) ==> name == text
    &&& (forall|text: Seq<char>| !(#[trigger] says(document, "name"@, text))) ==> name == spaced(id)
    &&& forall|text: Seq<char>| #[trigger] says(document, "category"@, text) ==> category == text
    &&& (forall|text: Seq<char>| !(#[trigger] says(document, "category"@, text))) ==> category
        == fallback
}

/// Whether `part` stands behind exactly `index` slashes of a key.
pub open spec fn is_part(key: Seq<char>, index: nat, part: Seq<char>) -> bool {
    exists|before: Seq<char>, after: Seq<char>| #[trigger]
        stands_between(key, index, before, part, after)
}

/// Whether a sample tells of a data point of a robot: its key has no wildcard and names the robot in
/// the configured place, and leaves a path for the id.
pub open spec fn tells_of(
    config: query::ZenohConfig,
    key: Seq<char>,
    document: Option<Json>,
    robot: Seq<char>,
    point: query::DataPoint,
) -> bool {
    &&& !key.contains('*')
    &&& is_part(key, config.robot_name_index as nat, robot)
    &&& filed_under(key, robot, point.id)
    &&& point.id.len() > 0
    &&& is_described(point.id, point.name, point.category, document, config.category@)
}

/// The id, name and category of a listed data point.
pub open spec fn point_of(meta: query::DataPointMeta) -> query::DataPoint {
    query::DataPoint { id: meta.id@, name: meta.name@, category: meta.category@ }
}

/// A data point is described by its document in one way only.
proof fn lemma_described(id: Seq<char>, document: Option<Json>, fallback: Seq<char>, point: query::DataPoint)
    ensures
        point == query::described_point(id, document, fallback) <==> point.id == id && is_described(
            id,
            point.name,
            point.category,
            document,
            fallback,
        ),
{
    lemma_replacements(id);
    if let Some(name) = json::text_member(document, "name"@) {
        assert(says(document, "name"@, name));
    }
    if let Some(category) = json::text_member(document, "category"@) {
        assert(says(document, "category"@, category));
    }
    assert forall|text: Seq<char>| #[trigger] says(document, "name"@, text) implies json::text_member(
        document,
        "name"@,
    ) == Some(text) by {}
    assert forall|text: Seq<char>| #[trigger]
        says(document, "category"@, text) implies json::text_member(document, "category"@) == Some(
        text,
    ) by {}
}

/// What a key and a document announce is what they tell of.
proof fn lemma_announced(
    config: query::ZenohConfig,
    key: Seq<char>,
    document: Option<Json>,
    robot: Seq<char>,
    point: query::DataPoint,
)
    ensures
        query::announced(config, key, document) == Some((robot, point)) <==> tells_of(
            config,
            key,
            document,
            robot,
            point,
        ),
{
    let index = config.robot_name_index as nat;
    lemma_segment_count(key, '/');
    lemma_filed(key, robot, point.id);
    let id = query::key_data_id(robot, key);
    lemma_described(id, document, config.category@, point);
    if query::announced(config, key, document) == Some((robot, point)) {
        let (before, part, after) = lemma_part_exists(key, index);
        lemma_part_of_key(key, index, before, part, after);
        assert(is_part(key, index, robot));
    }
    if tells_of(config, key, document, robot, point) {
        let (before, after) = choose|before: Seq<char>, after: Seq<char>| #[trigger]
            stands_between(key, index, before, robot, after);
        lemma_part_of_key(key, index, before, robot, after);
    }
}

/// Whether entry `at` of a list is the last that tells of point `id` of `robot`.
pub open spec fn tells_last(
    config: query::ZenohConfig,
    list: Seq<(Seq<char>, Option<Json>)>,
    at: int,
    robot: Seq<char>,
    point: query::DataPoint,
) -> bool {
    &&& 0 <= at < list.len()
    &&& tells_of(config, list[at].0, list[at].1, robot, point)
    &&& forall|j: int, other: query::DataPoint|
        at < j < list.len() && other.id == point.id ==> !(#[trigger] tells_of(
            config,
            list[j].0,
            list[j].1,
            robot,
            other,
        ))
}

/// Whether a data point is as the last entry about it tells.
pub open spec fn was_told(
    config: query::ZenohConfig,
    list: Seq<(Seq<char>, Option<Json>)>,
    robot: Seq<char>,
    point: query::DataPoint,
) -> bool {
    exists|at: int| #[trigger] tells_last(config, list, at, robot, point)
}

/// What is discovered of a point is what the last entry about it tells.
proof fn lemma_discovered(
    config: query::ZenohConfig,
    list: Seq<(Seq<char>, Option<Json>)>,
    robot: Seq<char>,
    id: Seq<char>,
) -> (at: int)
    requires
        query::discovered(config, list).contains_key(robot),
        query::discovered(config, list)[robot].contains_key(id),
    ensures
        query::discovered(config, list)[robot][id].id == id,
        tells_last(config, list, at, robot, query::discovered(config, list)[robot][id]),
    decreases list.len(),
{
    let init = list.drop_last();
    let last = list.len() - 1;
    let before = query::discovered(config, init);
    let now = query::discovered(config, list)[robot][id];
    let told = query::announced(config, list[last].0, list[last].1);
    assert(list.last() == list[last]);
    if told matches Some((found, point)) && found == robot && point.id == id {
        lemma_announced(config, list[last].0, list[last].1, robot, now);
        last
    } else {
        let at = lemma_discovered(config, init, robot, id);
        assert(init[at] == list[at]);
        assert forall|j: int, other: query::DataPoint|
            at < j < list.len() && other.id == id implies !(#[trigger] tells_of(
            config,
            list[j].0,
            list[j].1,
            robot,
            other,
        )) by {
            if j < last {
                assert(init[j] == list[j]);
                assert(!tells_of(config, init[j].0, init[j].1, robot, other));
            } else {
                lemma_announced(config, list[j].0, list[j].1, robot, other);
            }
        }
        at
    }
}

/// Whether component `component` has the point `point`.
pub open spec fn has(component: Component<query::ZenohDataProvider>, point: query::DataPoint) -> bool {
    exists|p: int|
        0 <= p < component.data_provider.data_points.len() && point_of(
            #[trigger] component.data_provider.data_points[p],
        ) == point
}

/// Whether `components` is what a list of samples tells: each robot once, under its own name, with
/// each of its data points once, as the last sample about it tells.
pub open spec fn is_told(
    config: query::ZenohConfig,
    list: Seq<(Seq<char>, Option<Json>)>,
    components: Seq<Component<query::ZenohDataProvider>>,
) -> bool {
    // No robot comes twice, and no data point of a robot.
    &&& forall|c: int, d: int|
        0 <= c < d < components.len() ==> components[c].id@ != components[d].id@
    &&& forall|c: int, p: int, q: int|
        0 <= c < components.len() && 0 <= p < q
            < components[c].data_provider.data_points.len() ==> (
        #[trigger] components[c].data_provider.data_points[p]).id@ != (
        #[trigger] components[c].data_provider.data_points[q]).id@
    // A component is its robot.
    &&& forall|c: int|
        0 <= c < components.len() ==> {
            &&& (#[trigger] components[c]).name@ == "Zenoh Robot "@ + components[c].id@
            &&& components[c].data_provider.robot_name@ == components[c].id@
            &&& components[c].data_provider.fallback_category@ == config.category@
            &&& components[c].data_provider.data_points.len() > 0
        }
    // Every data point was told of, and is as the last sample about it tells.
    &&& forall|c: int, p: int|
        0 <= c < components.len() && 0 <= p < components[c].data_provider.data_points.len()
            ==> was_told(
            config,
            list,
            components[c].id@,
            point_of(#[trigger] components[c].data_provider.data_points[p]),
        )
    // Everything that was told of last is there.
    &&& forall|at: int, robot: Seq<char>, point: query::DataPoint| #[trigger]
        tells_last(config, list, at, robot, point) ==> exists|c: int|
            0 <= c < components.len() && (#[trigger] components[c]).id@ == robot && has(
                components[c],
                point,
            )
}

/// Components that list what is discovered are what the samples tell.
proof fn lemma_told(
    config: query::ZenohConfig,
    list: Seq<(Seq<char>, Option<Json>)>,
    components: Seq<Component<query::ZenohDataProvider>>,
)
    requires
        query::lists_robots(components, query::discovered(config, list), config.category@),
    ensures
        is_told(config, list, components),
{
    let robots = query::discovered(config, list);
    assert forall|c: int, p: int, q: int|
        0 <= c < components.len() && 0 <= p < q
            < components[c].data_provider.data_points.len() implies (
    #[trigger] components[c].data_provider.data_points[p]).id@ != (
    #[trigger] components[c].data_provider.data_points[q]).id@ by {
        let points = components[c].data_provider.data_points@;
        assert(robots.contains_key(components[c].id@));
        assert(points[p].id@ != points[q].id@);
    }
    assert forall|c: int|
        0 <= c < components.len() implies (#[trigger] components[c]).data_provider.data_points.len() > 0 by {
        let robot = components[c].id@;
        assert(robots.contains_key(robot));
        crate::laws::law_discovered_names_are_plain(config, list, robot);
        let id = choose|id: Seq<char>| #[trigger] robots[robot].contains_key(id);
        let points = components[c].data_provider.data_points@;
        assert(exists|p: int| 0 <= p < points.len() && (#[trigger] points[p]).id@ == id);
    }
    assert forall|c: int, p: int|
        0 <= c < components.len() && 0 <= p
            < components[c].data_provider.data_points.len() implies was_told(
        config,
        list,
        components[c].id@,
        point_of(#[trigger] components[c].data_provider.data_points[p]),
    ) by {
        let points = components[c].data_provider.data_points@;
        let robot = components[c].id@;
        let id = points[p].id@;
        assert(robots.contains_key(robot));
        assert(robots[robot].contains_key(id) && robots[robot][id] == points[p]@);
        let at = lemma_discovered(config, list, robot, id);
        assert(point_of(points[p]) == points[p]@);
    }
    assert forall|at: int, robot: Seq<char>, point: query::DataPoint| #[trigger]
        tells_last(config, list, at, robot, point) implies exists|c: int|
        0 <= c < components.len() && (#[trigger] components[c]).id@ == robot && has(
            components[c],
            point,
        ) by {
        lemma_announced(config, list[at].0, list[at].1, robot, point);
        crate::laws::law_announced_points_are_discovered(config, list, at, robot, point);
        let latest = lemma_discovered(config, list, robot, point.id);
        let now = robots[robot][point.id];
        if latest > at {
            assert(!tells_of(config, list[latest].0, list[latest].1, robot, now));
        } else if latest < at {
            assert(!tells_of(config, list[at].0, list[at].1, robot, point));
        }
        lemma_announced(config, list[at].0, list[at].1, robot, now);
        assert(now == point);
        let c = choose|c: int| 0 <= c < components.len() && (#[trigger] components[c]).id@ == robot;
        let points = components[c].data_provider.data_points@;
        let p = choose|p: int| 0 <= p < points.len() && (#[trigger] points[p]).id@ == point.id;
        assert(points[p]@ == point);
        assert(point_of(components[c].data_provider.data_points[p]) == point);
        assert(has(components[c], point));
    }
}

/// A sample tells of a data point exactly where its key names a robot behind as many slashes as
/// configured, holds no wildcard, and leaves a path for the id, however long it is. The id is the
/// path with underscores, and name and category come from the document, each on its own.
pub proof fn law_sample_announces_what_its_key_tells(
    config: &query::ZenohConfig,
    sample: &query::Announcement,
    result: Option<(String, query::DataPointMeta)>,
    before: Seq<char>,
    robot: Seq<char>,
    after: Seq<char>,
    path: Seq<char>,
)
    requires
        call_ensures(query::ZenohConfig::announced_by, (config, sample), result),
        stands_between(sample.key@, config.robot_name_index as nat, before, robot, after),
        sample.key@ == robot.push('/') + path || (sample.key@ == path && !robot.push(
            '/',
        ).is_prefix_of(sample.key@)),
    ensures
        sample.key@.contains('*') || path.len() == 0 ==> result is None,
        !sample.key@.contains('*') && path.len() > 0 ==> (result matches Some((found, point)) && {
            &&& found@ == robot
            &&& point.id@ == underscored(path)
            &&& is_described(
                point.id@,
                point.name@,
                point.category@,
                (match sample.document {
                    Some(document) => Some(json::json(document)),
                    None => None,
                }),
                config.category@,
            )
        }),
{
    let key = sample.key@;
    let index = config.robot_name_index as nat;
    lemma_part_of_key(key, index, before, robot, after);
    if key == robot.push('/') + path {
        assert(robot.push('/') =~= key.subrange(0, robot.len() as int + 1));
        assert(key.skip(robot.len() as int + 1) =~= path);
    }
    lemma_replacements(path);
    let document = json::optional_json(sample.document);
    if let Some((found, point)) = result {
        lemma_described(underscored(path), document, config.category@, point@);
    }
}

/// A sample whose key has too few slashes to name a robot announces nothing.
pub proof fn law_short_key_announces_nothing(
    config: &query::ZenohConfig,
    sample: &query::Announcement,
    result: Option<(String, query::DataPointMeta)>,
)
    requires
        call_ensures(query::ZenohConfig::announced_by, (config, sample), result),
        sample.key@.to_multiset().count('/') < config.robot_name_index,
    ensures
        result is None,
{
    lemma_segment_count(sample.key@, '/');
}

/// With the robot's name in front, a key announces a data point as soon as anything stands behind
/// the slash, and the id is all of it with underscores.
pub proof fn law_first_part_names_the_robot(
    config: &query::ZenohConfig,
    sample: &query::Announcement,
    result: Option<(String, query::DataPointMeta)>,
    robot: Seq<char>,
    path: Seq<char>,
)
    requires
        call_ensures(query::ZenohConfig::announced_by, (config, sample), result),
        config.robot_name_index == 0,
        sample.key@ == robot.push('/') + path,
        !robot.contains('/'),
        !sample.key@.contains('*'),
        path.len() > 0,
    ensures
        result matches Some((found, point)) && found@ == robot && point.id@ == underscored(path),
{
    let key = sample.key@;
    let nothing = Seq::<char>::empty();
    let after = seq!['/'] + path;
    nothing.to_multiset_ensures();
    assert(key =~= nothing + robot + after);
    law_sample_announces_what_its_key_tells(
        config,
        sample,
        result,
        nothing,
        robot,
        after,
        path,
    );
}

/// A data point is described by its document: its name and its category are what the document says
/// under `name` and `category`, each whatever the other is.
pub proof fn law_document_describes_the_point(
    id: String,
    document: &Option<serde_json::Value>,
    fallback: &str,
    result: query::DataPointMeta,
    fields: Map<Seq<char>, Json>,
    text: Seq<char>,
)
    requires
        call_ensures(query::describe_point, (id, document, fallback), result),
        *document matches Some(value) && json::json(value) == Json::Object(fields),
    ensures
        result.id@ == id@,
        fields.contains_key("name"@) && fields["name"@] == Json::Text(text) ==> result.name@ == text,
        !fields.contains_key("name"@) || !(fields["name"@] is Text) ==> result.name@ == spaced(id@),
        fields.contains_key("category"@) && fields["category"@] == Json::Text(text)
            ==> result.category@ == text,
        !fields.contains_key("category"@) || !(fields["category"@] is Text) ==> result.category@
            == fallback@,
{
    lemma_replacements(id@);
}

/// Without a document, or with one that is no object, a data point is named by its id with spaces
/// for underscores and goes into the fallback category.
pub proof fn law_point_without_an_object_is_named_by_its_id(
    id: String,
    document: &Option<serde_json::Value>,
    fallback: &str,
    result: query::DataPointMeta,
)
    requires
        call_ensures(query::describe_point, (id, document, fallback), result),
        *document matches Some(value) ==> !(json::json(value) is Object),
    ensures
        result.id@ == id@,
        result.name@ == spaced(id@),
        result.category@ == fallback@,
{
    lemma_replacements(id@);
}

/// The key and the document of an announcement.
pub open spec fn sample_of(sample: query::Announcement) -> (Seq<char>, Option<Json>) {
    (
        sample.key@,
        match sample.document {
            Some(document) => Some(json::json(document)),
            None => None,
        },
    )
}

/// The keys and documents of the answers that carry a value, in order.
pub open spec fn samples_of(replies: Seq<Reply>) -> Seq<(Seq<char>, Option<Json>)> {
    replies.filter(|reply: Reply| reply is Sample).map_values(
        |reply: Reply|
            match reply {
                Reply::Sample { key, payload } => (
                    key@,
                    json::parsed(json::body_text(payload@)),
                ),
                Reply::Failed => arbitrary(),
            },
    )
}

/// Announcements are the samples among the answers.
proof fn lemma_samples(replies: Seq<Reply>)
    ensures
        query::announcements_in(replies) == samples_of(replies),
    decreases replies.len(),
{
    reveal(Seq::filter);
    if replies.len() > 0 {
        lemma_samples(replies.drop_last());
        let kept = replies.drop_last().filter(|reply: Reply| reply is Sample);
        if replies.last() is Sample {
            assert(replies.filter(|reply: Reply| reply is Sample) == kept.push(replies.last()));
        } else {
            assert(replies.filter(|reply: Reply| reply is Sample) == kept);
        }
    }
    assert(query::announcements_in(replies) =~= samples_of(replies));
}

/// Announcements are taken from the answers that carry a value, one for each, in order: the key, and
/// the document that the payload holds.
pub proof fn law_announcements_are_the_samples(
    replies: &Vec<Reply>,
    result: Vec<query::Announcement>,
    i: int,
)
    requires
        call_ensures(query::announcements, (replies,), result),
    ensures
        result.len() == samples_of(replies@).len(),
        0 <= i < result.len() ==> sample_of(result[i]) == samples_of(replies@)[i],
{
    lemma_samples(replies@);
    let views = query::announcement_views(result@);
    assert(views.len() == result.len());
    if 0 <= i < result.len() {
        assert(views[i] == result@[i]@);
    }
}

/// Collecting makes of the announcements what they tell.
pub proof fn law_collecting_finds_what_is_told(
    provider: &query::ZenohProvider,
    announcements: &Vec<query::Announcement>,
    result: EntityCollection<query::ZenohDataProvider>,
)
    requires
        call_ensures(query::ZenohProvider::collect, (provider, announcements), result),
    ensures
        is_told(
            provider.config,
            announcements@.map_values(|sample: query::Announcement| sample_of(sample)),
            result.components@,
        ),
{
    let list = query::announcement_views(announcements@);
    assert(list =~= announcements@.map_values(|sample: query::Announcement| sample_of(sample)));
    lemma_told(provider.config, list, result.components@);
}

/// A discovery among queried robots finds what the answers with a value tell: each robot once, with
/// each of its data points once, as the last answer about it tells, and nothing else. It fails only
/// where its query did, with that text.
pub proof fn law_discovery_finds_what_is_told(
    provider: &query::ZenohProvider,
    answers: Result<Vec<Reply>, String>,
    result: Result<EntityCollection<query::ZenohDataProvider>, DiscoveryError>,
)
    requires
        call_ensures(query::ZenohProvider::discover, (provider, answers), result),
    ensures
        answers matches Ok(replies) ==> (result matches Ok(found) && is_told(
            provider.config,
            samples_of(replies@),
            found.components@,
        )),
        answers matches Err(failure) ==> (result matches Err(DiscoveryError::Other(text)) && text@
            == failure@),
{
    if let (Ok(replies), Ok(found)) = (answers, result) {
        lemma_samples(replies@);
        lemma_told(provider.config, samples_of(replies@), found.components@);
    }
}

/// What a key holds besides one of its parts.
pub open spec fn left_over(before: Seq<char>, after: Seq<char>) -> Seq<char> {
    if after.len() > 0 {
        before + after.skip(1)
    } else if before.len() > 0 {
        before.drop_last()
    } else {
        Seq::empty()
    }
}

/// Whether an answer is a token for data point `id` of `robot`: the key names the robot behind
/// `index` slashes, and the id is the rest of the key with underscores.
pub open spec fn is_token(reply: Reply, index: nat, robot: Seq<char>, id: Seq<char>) -> bool {
    &&& reply is Sample
    &&& id.len() > 0
    &&& exists|before: Seq<char>, after: Seq<char>| #[trigger]
        stands_between(reply->key@, index, before, robot, after) && id == underscored(
            left_over(before, after),
        )
}

/// Whether an answer is a token for any data point of `robot`.
pub open spec fn is_token_of(reply: Reply, index: nat, robot: Seq<char>) -> bool {
    exists|id: Seq<char>| #[trigger] is_token(reply, index, robot, id)
}

/// What a key stands for, given one of its parts.
proof fn lemma_token_key(
    key: Seq<char>,
    index: nat,
    before: Seq<char>,
    robot: Seq<char>,
    after: Seq<char>,
)
    requires
        stands_between(key, index, before, robot, after),
    ensures
        pub_sub::announced(index, key) == (if left_over(before, after).len() == 0 {
            None
        } else {
            Some((robot, underscored(left_over(before, after))))
        }),
{
    lemma_part_of_key(key, index, before, robot, after);
    let parts = text::segments(key, '/');
    let others = parts.remove(index as int);
    text::lemma_segments(key, '/');
    assert forall|i: int| 0 <= i < others.len() implies !(#[trigger] others[i]).contains('/') by {
        if i < index {
            assert(others[i] == parts[i]);
        } else {
            assert(others[i] == parts[i + 1]);
        }
    }
    text::lemma_joined_replaced(others, '/', '_');
    lemma_replacements(left_over(before, after));
}

/// What a key announces is what it is a token for.
proof fn lemma_token(reply: Reply, index: nat, robot: Seq<char>, id: Seq<char>)
    ensures
        is_token(reply, index, robot, id) <==> reply is Sample && pub_sub::announced(
            index,
            reply->key@,
        ) == Some((robot, id)),
{
    if reply is Sample {
        let key = reply->key@;
        if is_token(reply, index, robot, id) {
            let (before, after) = choose|before: Seq<char>, after: Seq<char>| #[trigger]
                stands_between(key, index, before, robot, after) && id == underscored(
                    left_over(before, after),
                );
            lemma_token_key(key, index, before, robot, after);
        }
        if pub_sub::announced(index, key) == Some((robot, id)) {
            lemma_segment_count(key, '/');
            let (before, part, after) = lemma_part_exists(key, index);
            lemma_token_key(key, index, before, part, after);
        }
    }
}

/// The data ids of a robot are those of its tokens, in order.
proof fn lemma_tokens(index: nat, replies: Seq<Reply>, robot: Seq<char>)
    ensures
        ({
            let tokens = replies.filter(|reply: Reply| is_token_of(reply, index, robot));
            let robots = pub_sub::discovered(index, replies);
            &&& robots.contains_key(robot) <==> tokens.len() > 0
            &&& robots.contains_key(robot) ==> robots[robot].len() == tokens.len() && forall|p: int|
                0 <= p < tokens.len() ==> is_token(
                    #[trigger] tokens[p],
                    index,
                    robot,
                    robots[robot][p],
                )
        }),
    decreases replies.len(),
{
    reveal(Seq::filter);
    if replies.len() > 0 {
        let init = replies.drop_last();
        let last = replies.last();
        lemma_tokens(index, init, robot);
        let before = init.filter(|reply: Reply| is_token_of(reply, index, robot));
        let tokens = replies.filter(|reply: Reply| is_token_of(reply, index, robot));
        let robots = pub_sub::discovered(index, replies);
        if last is Sample {
            let key = last->key@;
            match pub_sub::announced(index, key) {
                Some((found, id)) => {
                    lemma_token(last, index, found, id);
                    if found == robot {
                        assert(is_token_of(last, index, robot));
                        assert(tokens == before.push(last));
                        assert(robots[robot].last() == id);
                    } else {
                        assert forall|other: Seq<char>| !(#[trigger] is_token(
                            last,
                            index,
                            robot,
                            other,
                        )) by {
                            lemma_token(last, index, robot, other);
                        }
                        assert(tokens == before);
                    }
                },
                None => {
                    assert forall|other: Seq<char>| !(#[trigger] is_token(
                        last,
                        index,
                        robot,
                        other,
                    )) by {
                        lemma_token(last, index, robot, other);
                    }
                    assert(tokens == before);
                },
            }
        } else {
            assert(!is_token_of(last, index, robot));
            assert(tokens == before);
        }
    }
}

/// A token's key names a robot behind as many slashes as configured, and its id is all the rest of
/// the key, however long, with underscores. It announces nothing only where the key has too few
/// slashes, or nothing but the robot.
pub proof fn law_token_announces_what_its_key_tells(
    config: &pub_sub::ZenohConfig,
    key: &str,
    result: Option<(String, String)>,
    before: Seq<char>,
    robot: Seq<char>,
    after: Seq<char>,
)
    requires
        call_ensures(pub_sub::ZenohConfig::announced_by, (config, key), result),
    ensures
        key@.to_multiset().count('/') < config.robot_name_index ==> result is None,
        stands_between(key@, config.robot_name_index as nat, before, robot, after) ==> {
            &&& left_over(before, after).len() == 0 ==> result is None
            &&& left_over(before, after).len() > 0 ==> (result matches Some((found, id)) && found@
                == robot && id@ == underscored(left_over(before, after)))
        },
{
    lemma_segment_count(key@, '/');
    if stands_between(key@, config.robot_name_index as nat, before, robot, after) {
        lemma_token_key(key@, config.robot_name_index as nat, before, robot, after);
    }
}

/// With the robot's name in front, a token announces a data point as soon as anything stands behind
/// the slash, and the id is all of it with underscores.
pub proof fn law_token_with_the_robot_in_front(
    config: &pub_sub::ZenohConfig,
    key: &str,
    result: Option<(String, String)>,
    robot: Seq<char>,
    path: Seq<char>,
)
    requires
        call_ensures(pub_sub::ZenohConfig::announced_by, (config, key), result),
        config.robot_name_index == 0,
        key@ == robot.push('/') + path,
        !robot.contains('/'),
    ensures
        path.len() > 0 ==> (result matches Some((found, id)) && found@ == robot && id@
            == underscored(path)),
        path.len() == 0 ==> result is None,
{
    let nothing = Seq::<char>::empty();
    let after = seq!['/'] + path;
    nothing.to_multiset_ensures();
    assert(key@ =~= nothing + robot + after);
    assert(left_over(nothing, after) =~= path);
    law_token_announces_what_its_key_tells(config, key, result, nothing, robot, after);
}

/// A discovery by tokens finds each robot that has a token, once and under its own name, and its
/// data points are those of its tokens, one for each, in order, named by their ids. It fails only
/// where its query did, with that text.
pub proof fn law_token_discovery_finds_every_token(
    provider: &pub_sub::ZenohProvider,
    answers: Result<Vec<Reply>, String>,
    result: Result<EntityCollection<pub_sub::ZenohDataProvider>, DiscoveryError>,
)
    requires
        call_ensures(pub_sub::ZenohProvider::discover, (provider, answers), result),
    ensures
        answers matches Ok(replies) ==> (result matches Ok(found) && are_tokens(
            provider.config.robot_name_index as nat,
            replies@,
            found.components@,
        )),
        answers matches Err(failure) ==> (result matches Err(DiscoveryError::Other(text)) && text@
            == failure@),
{
    if let (Ok(replies), Ok(found)) = (answers, result) {
        let index = provider.config.robot_name_index as nat;
        let components = found.components@;
        let robots = pub_sub::discovered(index, replies@);
        assert forall|c: int| 0 <= c < components.len() implies ({
            let robot = (#[trigger] components[c]).id@;
            let points = components[c].data_provider.data_points;
            let tokens = replies@.filter(|reply: Reply| is_token_of(reply, index, robot));
            &&& points.len() == tokens.len() > 0
            &&& forall|p: int|
                0 <= p < points.len() ==> (#[trigger] points[p]).1@ == points[p].0@ && is_token(
                    tokens[p],
                    index,
                    robot,
                    points[p].0@,
                )
        }) by {
            lemma_tokens(index, replies@, components[c].id@);
        }
        assert forall|i: int, robot: Seq<char>|
            0 <= i < replies.len() && #[trigger] is_token_of(
                replies@[i],
                index,
                robot,
            ) implies exists|c: int|
            0 <= c < components.len() && (#[trigger] components[c]).id@ == robot by {
            let id = choose|id: Seq<char>| #[trigger] is_token(replies@[i], index, robot, id);
            lemma_token(replies@[i], index, robot, id);
            crate::laws::law_tokens_are_discovered(index, replies@, i, robot, id);
        }
    }
}

/// Whether `components` is what the tokens among the answers stand for.
pub open spec fn are_tokens(
    index: nat,
    replies: Seq<Reply>,
    components: Seq<Component<pub_sub::ZenohDataProvider>>,
) -> bool {
    &&& forall|c: int, d: int|
        0 <= c < d < components.len() ==> components[c].id@ != components[d].id@
    &&& forall|c: int|
        0 <= c < components.len() ==> {
            &&& (#[trigger] components[c]).name@ == "Zenoh Robot "@ + components[c].id@
            &&& components[c].data_provider.key_prefix@ == components[c].id@
        }
    &&& forall|c: int|
        0 <= c < components.len() ==> {
            let robot = (#[trigger] components[c]).id@;
            let points = components[c].data_provider.data_points;
            let tokens = replies.filter(|reply: Reply| is_token_of(reply, index, robot));
            &&& points.len() == tokens.len() > 0
            &&& forall|p: int|
                0 <= p < points.len() ==> (#[trigger] points[p]).1@ == points[p].0@ && is_token(
                    tokens[p],
                    index,
                    robot,
                    points[p].0@,
                )
        }
    &&& forall|i: int, robot: Seq<char>|
        0 <= i < replies.len() && #[trigger] is_token_of(replies[i], index, robot) ==> exists|c: int|
            0 <= c < components.len() && (#[trigger] components[c]).id@ == robot
}

}
