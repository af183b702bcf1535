//! What reads ask for and answer, and what writes send out.

use vstd::prelude::*;
use vstd::utf8::encode_utf8;

use crate::entity::{Data, DataError, Reply};
use crate::json;
use crate::json::Json;
use crate::laws::keys::{lemma_replacements, slashed, underscored};
use crate::laws::payloads::{
    carried_by, lemma_carried, lemma_payload, lemma_stands_for_once, stands_for,
};
use crate::zenoh as query;
use crate::zenoh_pub_sub as pub_sub;

verus! {

/// Whether a value that comes on `key` is filed under `id`: the path behind the robot's name, or
/// the whole key where it does not start with that name, with underscores for slashes.
pub open spec fn filed_under(key: Seq<char>, robot: Seq<char>, id: Seq<char>) -> bool {
    &&& robot.push('/').is_prefix_of(key) ==> id == underscored(key.skip(robot.len() as int + 1))
    &&& !robot.push('/').is_prefix_of(key) ==> id == underscored(key)
}

/// Whether an answer carries something for `id`.
pub open spec fn is_about(reply: Reply, robot: Seq<char>, id: Seq<char>) -> bool {
    reply matches Reply::Sample { key, .. } && filed_under(key@, robot, id)
}

/// Whether `value` is the data of an answer.
pub open spec fn is_data_of(value: Json, reply: Reply) -> bool {
    reply matches Reply::Sample { payload, .. } && exists|document: Json| #[trigger]
        stands_for(document, json::body_text(payload@)) && carried_by(value, document)
}

/// Whether `at` is the last answer about `id`.
pub open spec fn is_last_about(replies: Seq<Reply>, at: int, robot: Seq<char>, id: Seq<char>) -> bool {
    &&& 0 <= at < replies.len()
    &&& is_about(replies[at], robot, id)
    &&& forall|j: int| at < j < replies.len() ==> !is_about(#[trigger] replies[j], robot, id)
}

/// Whether `fields` holds what the answers tell: a member for each id that an answer is about, with
/// the data of the last such answer, and no other member.
pub open spec fn tells_all(
    fields: Map<Seq<char>, Json>,
    replies: Seq<Reply>,
    robot: Seq<char>,
) -> bool {
    &&& forall|id: Seq<char>| #[trigger]
        fields.contains_key(id) <==> exists|i: int|
            0 <= i < replies.len() && is_about(#[trigger] replies[i], robot, id)
    &&& forall|id: Seq<char>, at: int| #[trigger]
        is_last_about(replies, at, robot, id) ==> is_data_of(fields[id], replies[at])
}

/// Whether the robot has a data point `id`.
pub open spec fn offers(provider: query::ZenohDataProvider, id: Seq<char>) -> bool {
    exists|i: int|
        0 <= i < provider.data_points.len() && (#[trigger] provider.data_points[i]).id@ == id
}

/// Values are filed by their keys.
pub proof fn lemma_filed(key: Seq<char>, robot: Seq<char>, id: Seq<char>)
    ensures
        filed_under(key, robot, id) <==> query::key_data_id(robot, key) == id,
{
    lemma_replacements(key);
    lemma_replacements(key.skip(robot.len() as int + 1));
}

/// The data of an answer is what its document carries.
proof fn lemma_data(value: Json, reply: Reply)
    ensures
        is_data_of(value, reply) <==> (reply matches Reply::Sample { payload, .. } && value
            == json::envelope_data_spec(json::payload_document(payload@))),
{
    if let Reply::Sample { payload, .. } = reply {
        let body = json::body_text(payload@);
        let document = json::payload_document(payload@);
        lemma_payload(payload@);
        lemma_carried(document);
        if is_data_of(value, reply) {
            let other = choose|other: Json| #[trigger]
                stands_for(other, body) && carried_by(value, other);
            lemma_stands_for_once(document, other, body);
        }
    }
}

/// What is gathered from answers is all that they tell.
proof fn lemma_gathered(robot: Seq<char>, replies: Seq<Reply>)
    ensures
        tells_all(query::gathered(robot, query::readings_in(replies)), replies, robot),
        query::readings_in(replies).len() == 0 <==> forall|i: int|
            0 <= i < replies.len() ==> #[trigger] replies[i] is Failed,
    decreases replies.len(),
{
    let fields = query::gathered(robot, query::readings_in(replies));
    if replies.len() > 0 {
        let init = replies.drop_last();
        let last = replies.last();
        let before = query::gathered(robot, query::readings_in(init));
        lemma_gathered(robot, init);
        assert(replies[replies.len() - 1] == last);
        assert(forall|i: int| 0 <= i < init.len() ==> #[trigger] init[i] == replies[i]);
        assert(forall|i: int| 0 <= i < init.len() ==> init[i] == #[trigger] replies[i]);
        if let Reply::Sample { key, payload } = last {
            let reading = (key@, json::payload_document(payload@));
            assert(query::readings_in(replies).drop_last() =~= query::readings_in(init));
            assert(query::readings_in(replies).last() == reading);
        }
        assert forall|id: Seq<char>| #[trigger] fields.contains_key(id) <==> exists|i: int|
            0 <= i < replies.len() && is_about(#[trigger] replies[i], robot, id) by {
            if let Reply::Sample { key, payload } = last {
                lemma_filed(key@, robot, id);
                assert(is_about(last, robot, id) <==> query::key_data_id(robot, key@) == id);
            }
            if before.contains_key(id) {
                let i = choose|i: int|
                    0 <= i < init.len() && is_about(#[trigger] init[i], robot, id);
                assert(is_about(replies[i], robot, id));
            }
            if exists|i: int| 0 <= i < replies.len() && is_about(#[trigger] replies[i], robot, id) {
                let i = choose|i: int|
                    0 <= i < replies.len() && is_about(#[trigger] replies[i], robot, id);
                if i < init.len() {
                    assert(is_about(init[i], robot, id));
                }
            }
        }
        assert forall|id: Seq<char>, at: int| #[trigger]
            is_last_about(replies, at, robot, id) implies is_data_of(fields[id], replies[at]) by {
            if let Reply::Sample { key, payload } = last {
                lemma_filed(key@, robot, id);
            }
            lemma_data(fields[id], replies[at]);
            if at < init.len() {
                assert(!is_about(replies[replies.len() - 1], robot, id));
                assert forall|j: int| at < j < init.len() implies !is_about(
                    #[trigger] init[j],
                    robot,
                    id,
                ) by {
                    assert(init[j] == replies[j]);
                }
                assert(is_last_about(init, at, robot, id));
                lemma_data(before[id], replies[at]);
            }
        }
    }
}

/// A read asks for everything of the robot, or for the key of one data point, which is the robot's
/// name, a slash, and the id with slashes for underscores. An id that the robot does not have is
/// reported back.
pub proof fn law_read_asks_for_the_key_of_its_id(
    provider: &query::ZenohDataProvider,
    id: &str,
    result: Result<String, DataError>,
)
    requires
        call_ensures(query::ZenohDataProvider::read_query, (provider, id), result),
    ensures
        id@ == "telemetry"@ ==> (result matches Ok(key) && key@ == provider.robot_name@ + seq![
            '/',
            '*',
            '*',
        ]),
        id@ != "telemetry"@ && offers(*provider, id@) ==> (result matches Ok(key) && key@
            == provider.robot_name@.push('/') + slashed(id@)),
        id@ != "telemetry"@ && !offers(*provider, id@) ==> (result matches Err(
            DataError::NotFound(text),
        ) && text@ == id@),
{
    reveal_strlit("/**");
    reveal_strlit("/");
    lemma_replacements(id@);
    assert("/**"@ =~= seq!['/', '*', '*']);
    assert(provider.robot_name@ + "/"@ =~= provider.robot_name@.push('/'));
    assert(provider.has_point(id@) == offers(*provider, id@));
}

/// A read of an id that the robot does not have ends in that id as not found, whatever was
/// answered.
pub proof fn law_read_knows_its_ids(
    provider: &query::ZenohDataProvider,
    id: &str,
    include_schema: bool,
    answers: Result<Vec<Reply>, String>,
    result: Result<Data, DataError>,
)
    requires
        call_ensures(
            query::ZenohDataProvider::read,
            (provider, id, include_schema, answers),
            result,
        ),
        id@ != "telemetry"@,
        !offers(*provider, id@),
    ensures
        result matches Err(DataError::NotFound(text)) && text@ == id@,
{
    assert(provider.has_point(id@) == offers(*provider, id@));
}

/// A query that failed makes the read fail with the text of the failure.
pub proof fn law_read_reports_a_failed_query(
    provider: &query::ZenohDataProvider,
    id: &str,
    include_schema: bool,
    failure: String,
    result: Result<Data, DataError>,
)
    requires
        call_ensures(
            query::ZenohDataProvider::read,
            (provider, id, include_schema, Err(failure)),
            result,
        ),
        id@ == "telemetry"@ || offers(*provider, id@),
    ensures
        result matches Err(DataError::Internal(text)) && text@ == failure@,
{
    assert(provider.has_point(id@) == offers(*provider, id@));
}

/// A read of one data point without a single value among the answers finds nothing.
pub proof fn law_read_without_a_value_finds_nothing(
    provider: &query::ZenohDataProvider,
    id: &str,
    include_schema: bool,
    replies: Vec<Reply>,
    result: Result<Data, DataError>,
)
    requires
        call_ensures(
            query::ZenohDataProvider::read,
            (provider, id, include_schema, Ok(replies)),
            result,
        ),
        id@ != "telemetry"@,
        offers(*provider, id@),
        forall|i: int| 0 <= i < replies.len() ==> #[trigger] replies@[i] is Failed,
    ensures
        result matches Err(DataError::NotFound(text)) && text@ == "No data found for "@ + id@
            + " in Zenoh"@,
{
    assert(provider.has_point(id@) == offers(*provider, id@));
    lemma_gathered(provider.robot_name@, replies@);
}

/// A read of one data point gives the data of the last answer about it: the member `data` of an
/// envelope, whatever other members it has, and the whole document where there is no such member.
/// It never comes with a schema.
pub proof fn law_read_gives_the_data_of_the_last_answer(
    provider: &query::ZenohDataProvider,
    id: &str,
    include_schema: bool,
    replies: Vec<Reply>,
    result: Result<Data, DataError>,
    at: int,
)
    requires
        call_ensures(
            query::ZenohDataProvider::read,
            (provider, id, include_schema, Ok(replies)),
            result,
        ),
        id@ != "telemetry"@,
        offers(*provider, id@),
        is_last_about(replies@, at, provider.robot_name@, id@),
    ensures
        result matches Ok(found) && is_data_of(json::json(found.data), replies@[at])
            && found.schema is None,
{
    assert(provider.has_point(id@) == offers(*provider, id@));
    lemma_gathered(provider.robot_name@, replies@);
    assert(is_about(replies@[at], provider.robot_name@, id@));
}

/// A read of one data point with answers that are all about other ids gives all of them.
pub proof fn law_read_without_an_own_answer_gives_all(
    provider: &query::ZenohDataProvider,
    id: &str,
    include_schema: bool,
    replies: Vec<Reply>,
    result: Result<Data, DataError>,
    some: int,
)
    requires
        call_ensures(
            query::ZenohDataProvider::read,
            (provider, id, include_schema, Ok(replies)),
            result,
        ),
        id@ != "telemetry"@,
        offers(*provider, id@),
        0 <= some < replies.len(),
        replies@[some] is Sample,
        forall|i: int|
            0 <= i < replies.len() ==> !is_about(#[trigger] replies@[i], provider.robot_name@, id@),
    ensures
        result matches Ok(found) && (json::json(found.data) matches Json::Object(fields)
            && tells_all(fields, replies@, provider.robot_name@)) && found.schema is None,
{
    assert(provider.has_point(id@) == offers(*provider, id@));
    lemma_gathered(provider.robot_name@, replies@);
    assert(!(replies@[some] is Failed));
}

/// A read of the robot as a whole gives everything that was answered, even where nothing was.
pub proof fn law_read_of_the_robot_gives_all(
    provider: &query::ZenohDataProvider,
    id: &str,
    include_schema: bool,
    replies: Vec<Reply>,
    result: Result<Data, DataError>,
)
    requires
        call_ensures(
            query::ZenohDataProvider::read,
            (provider, id, include_schema, Ok(replies)),
            result,
        ),
        id@ == "telemetry"@,
    ensures
        result matches Ok(found) && (json::json(found.data) matches Json::Object(fields)
            && tells_all(fields, replies@, provider.robot_name@)) && found.schema is None,
{
    lemma_gathered(provider.robot_name@, replies@);
}

/// Asking and reading together: a single answer, on the very key that was asked for, with an
/// envelope that has data, is read as that data.
pub proof fn law_answer_on_the_asked_key_is_read(
    provider: &query::ZenohDataProvider,
    id: &str,
    include_schema: bool,
    key: String,
    payload: Vec<u8>,
    replies: Vec<Reply>,
    result: Result<Data, DataError>,
    fields: Map<Seq<char>, Json>,
)
    requires
        call_ensures(query::ZenohDataProvider::read_query, (provider, id), Ok(key)),
        call_ensures(
            query::ZenohDataProvider::read,
            (provider, id, include_schema, Ok(replies)),
            result,
        ),
        id@ != "telemetry"@,
        !id@.contains('/'),
        replies@ == seq![Reply::Sample { key, payload }],
        json::parsed(json::body_text(payload@)) == Some(Json::Object(fields)),
    ensures
        fields.contains_key("data"@) ==> (result matches Ok(found) && json::json(found.data)
            == fields["data"@]),
        !fields.contains_key("data"@) ==> (result matches Ok(found) && json::json(found.data)
            == Json::Object(fields)),
{
    law_read_asks_for_the_key_of_its_id(provider, id, Ok(key));
    let robot = provider.robot_name@;
    let path = slashed(id@);
    assert(robot.push('/') =~= key@.subrange(0, robot.len() as int + 1));
    assert(key@.skip(robot.len() as int + 1) =~= path);
    assert(underscored(path) =~= id@) by {
        assert forall|i: int| 0 <= i < id@.len() implies underscored(path)[i] == id@[i] by {
            assert(id@.contains(id@[i]));
        }
    }
    assert(is_about(replies@[0], robot, id@));
    law_read_gives_the_data_of_the_last_answer(
        provider,
        id,
        include_schema,
        replies,
        result,
        0,
    );
    if let Ok(found) = result {
        lemma_data(json::json(found.data), replies@[0]);
    }
}

/// Putting readings together ends in the same way: with the data of the last reading about the id,
/// and without any reading in nothing found.
pub proof fn law_assembling_takes_the_last_reading(
    provider: &query::ZenohDataProvider,
    id: &str,
    readings: Vec<query::Reading>,
    result: Result<Data, DataError>,
    at: int,
)
    requires
        call_ensures(query::ZenohDataProvider::assemble, (provider, id, readings), result),
        id@ != "telemetry"@,
    ensures
        readings.len() == 0 ==> (result matches Err(DataError::NotFound(text)) && text@
            == "No data found for "@ + id@ + " in Zenoh"@),
        0 <= at < readings.len() && filed_under(readings[at].key@, provider.robot_name@, id@) && (
        forall|j: int|
            at < j < readings.len() ==> !filed_under(
                (#[trigger] readings@[j]).key@,
                provider.robot_name@,
                id@,
            )) ==> (result matches Ok(found) && carried_by(
            json::json(found.data),
            json::json(readings[at].document),
        ) && found.schema is None),
{
    let robot = provider.robot_name@;
    let views = query::reading_views(readings@);
    assert(views.len() == readings.len());
    if 0 <= at < readings.len() && filed_under(readings[at].key@, robot, id@) && (forall|j: int|
        at < j < readings.len() ==> !filed_under((#[trigger] readings@[j]).key@, robot, id@)) {
        assert(views[at] == readings@[at]@);
        lemma_filed(views[at].0, robot, id@);
        assert forall|j: int| at < j < views.len() implies query::key_data_id(
            robot,
            #[trigger] views[j].0,
        ) != id@ by {
            assert(views[j] == readings@[j]@);
            lemma_filed(views[j].0, robot, id@);
        }
        crate::laws::law_last_reading_wins(robot, id@, views, at);
        lemma_carried(views[at].1);
    }
}

/// Putting readings together for the robot as a whole: a member for each id that a reading is about
/// and no other, with the data of the last such reading.
pub proof fn law_assembling_the_robot_takes_all_readings(
    provider: &query::ZenohDataProvider,
    id: &str,
    readings: Vec<query::Reading>,
    result: Result<Data, DataError>,
)
    requires
        call_ensures(query::ZenohDataProvider::assemble, (provider, id, readings), result),
        id@ == "telemetry"@,
    ensures
        result matches Ok(found) && found.schema is None && (json::json(
            found.data,
        ) matches Json::Object(fields) && {
            &&& forall|i: int, about: Seq<char>|
                0 <= i < readings.len() && #[trigger] filed_under(
                    readings[i].key@,
                    provider.robot_name@,
                    about,
                ) && (forall|j: int|
                    i < j < readings.len() ==> !filed_under(
                        (#[trigger] readings@[j]).key@,
                        provider.robot_name@,
                        about,
                    )) ==> fields.contains_key(about) && carried_by(
                    fields[about],
                    json::json(readings[i].document),
                )
            &&& forall|about: Seq<char>| #[trigger]
                fields.contains_key(about) ==> exists|i: int|
                    0 <= i < readings.len() && filed_under(
                        (#[trigger] readings@[i]).key@,
                        provider.robot_name@,
                        about,
                    )
        }),
{
    let robot = provider.robot_name@;
    let views = query::reading_views(readings@);
    let fields = query::gathered(robot, views);
    assert(views.len() == readings.len());
    assert(result matches Ok(found) && json::json(found.data) == Json::Object(fields));
    assert forall|i: int, about: Seq<char>|
        0 <= i < readings.len() && #[trigger] filed_under(readings[i].key@, robot, about) && (
        forall|j: int|
            i < j < readings.len() ==> !filed_under(
                (#[trigger] readings@[j]).key@,
                robot,
                about,
            )) implies fields.contains_key(about) && carried_by(
        fields[about],
        json::json(readings[i].document),
    ) by {
        assert(views[i] == readings@[i]@);
        lemma_filed(views[i].0, robot, about);
        assert forall|j: int| i < j < views.len() implies query::key_data_id(
            robot,
            #[trigger] views[j].0,
        ) != about by {
            assert(views[j] == readings@[j]@);
            lemma_filed(views[j].0, robot, about);
        }
        crate::laws::lemma_gathered_last(robot, about, views, i);
        lemma_carried(views[i].1);
    }
    assert forall|about: Seq<char>| #[trigger] fields.contains_key(about) implies exists|i: int|
        0 <= i < readings.len() && filed_under((#[trigger] readings@[i]).key@, robot, about) by {
        let i = lemma_gathered_from(robot, about, views);
        assert(views[i] == readings@[i]@);
        lemma_filed(views[i].0, robot, about);
    }
}

/// Every member that is gathered comes from a reading.
proof fn lemma_gathered_from(
    robot: Seq<char>,
    id: Seq<char>,
    readings: Seq<(Seq<char>, Json)>,
) -> (i: int)
    requires
        query::gathered(robot, readings).contains_key(id),
    ensures
        0 <= i < readings.len(),
        query::key_data_id(robot, readings[i].0) == id,
    decreases readings.len(),
{
    if query::key_data_id(robot, readings.last().0) == id {
        readings.len() - 1
    } else {
        lemma_gathered_from(robot, id, readings.drop_last())
    }
}

/// Readings are taken from the answers one by one, in order: an answer with a value adds its key and
/// the document for its payload at the end, one without changes nothing.
pub proof fn law_readings_follow_the_answers(
    replies: &Vec<Reply>,
    readings: Vec<query::Reading>,
    more_replies: &Vec<Reply>,
    more_readings: Vec<query::Reading>,
    reply: Reply,
)
    requires
        call_ensures(query::readings, (replies,), readings),
        call_ensures(query::readings, (more_replies,), more_readings),
        more_replies@ == replies@.push(reply),
    ensures
        replies.len() == 0 ==> readings.len() == 0,
        forall|i: int|
            0 <= i < readings.len() ==> more_readings[i].key@ == (#[trigger] readings[i]).key@
                && json::json(more_readings[i].document) == json::json(readings[i].document),
        match reply {
            Reply::Sample { key, payload } => {
                &&& more_readings.len() == readings.len() + 1
                &&& more_readings[readings.len() as int].key@ == key@
                &&& stands_for(
                    json::json(more_readings[readings.len() as int].document),
                    json::body_text(payload@),
                )
            },
            Reply::Failed => more_readings.len() == readings.len(),
        },
{
    let views = query::reading_views(readings@);
    let more_views = query::reading_views(more_readings@);
    assert(views.len() == readings.len() && more_views.len() == more_readings.len());
    assert(more_replies@.drop_last() =~= replies@);
    assert(more_replies@.last() == reply);
    if let Reply::Sample { key, payload } = reply {
        lemma_payload(payload@);
        assert(more_views == views.push((key@, json::payload_document(payload@))));
        assert(more_views[readings.len() as int] == more_readings@[readings.len() as int]@);
    }
    assert forall|i: int| 0 <= i < readings.len() implies more_readings[i].key@ == (
    #[trigger] readings[i]).key@ && json::json(more_readings[i].document) == json::json(
        readings[i].document,
    ) by {
        assert(views[i] == readings@[i]@);
        assert(more_views[i] == more_readings@[i]@);
    }
}

/// A robot that answers queries refuses every write.
pub proof fn law_queried_robot_takes_no_write(
    provider: &query::ZenohDataProvider,
    id: &str,
    value: serde_json::Value,
    result: Result<(), DataError>,
)
    requires
        call_ensures(query::ZenohDataProvider::write, (provider, id, value), result),
    ensures
        result matches Err(DataError::Internal(text)) && text@
            == "Writing to Zenoh queryables is not supported"@,
{
}

/// A data point is published on the robot's prefix, a slash, and the id with slashes for
/// underscores: that is what a read subscribes to, what a write publishes on, and what a timeout
/// names.
pub proof fn law_reads_and_writes_share_a_key(
    provider: &pub_sub::ZenohDataProvider,
    id: &str,
    include_schema: bool,
    key: String,
    value: serde_json::Value,
    publication: pub_sub::Publication,
    result: Result<Data, DataError>,
)
    requires
        call_ensures(pub_sub::ZenohDataProvider::key_for, (provider, id), key),
        call_ensures(pub_sub::ZenohDataProvider::write, (provider, id, value), publication),
        call_ensures(
            pub_sub::ZenohDataProvider::read,
            (provider, id, include_schema, pub_sub::Delivery::TimedOut),
            result,
        ),
    ensures
        key@ == provider.key_prefix@.push('/') + slashed(id@),
        publication.key@ == key@,
        result matches Err(DataError::NotFound(text)) && text@
            == "Timeout: Robot did not send data on '"@ + key@ + "'"@,
{
    reveal_strlit("/");
    lemma_replacements(id@);
    assert(provider.key_prefix@ + "/"@ =~= provider.key_prefix@.push('/'));
}

/// A publication is read as the document that it holds, or as its text under `raw_value`, without
/// looking for an envelope. It never comes with a schema.
pub proof fn law_publication_is_read_whole(
    provider: &pub_sub::ZenohDataProvider,
    id: &str,
    include_schema: bool,
    payload: Vec<u8>,
    result: Result<Data, DataError>,
)
    requires
        call_ensures(
            pub_sub::ZenohDataProvider::read,
            (provider, id, include_schema, pub_sub::Delivery::Received(payload)),
            result,
        ),
    ensures
        result matches Ok(found) && stands_for(
            json::json(found.data),
            json::body_text(payload@),
        ) && found.schema is None,
{
    lemma_payload(payload@);
}

/// A subscription that could not be made, or that ended, makes the read fail with its text.
pub proof fn law_read_reports_a_lost_subscription(
    provider: &pub_sub::ZenohDataProvider,
    id: &str,
    include_schema: bool,
    reason: String,
    undeclared: Result<Data, DataError>,
    closed: Result<Data, DataError>,
)
    requires
        call_ensures(
            pub_sub::ZenohDataProvider::read,
            (provider, id, include_schema, pub_sub::Delivery::Undeclared(reason)),
            undeclared,
        ),
        call_ensures(
            pub_sub::ZenohDataProvider::read,
            (provider, id, include_schema, pub_sub::Delivery::Closed(reason)),
            closed,
        ),
    ensures
        undeclared matches Err(DataError::Internal(text)) && text@ == reason@,
        closed matches Err(DataError::Internal(text)) && text@ == "Subscriber Error: "@ + reason@,
{
}

/// What was written is read back: a read that receives the bytes of the publication gives the value
/// again, as long as it survives being text.
pub proof fn law_written_value_is_read_back(
    provider: &pub_sub::ZenohDataProvider,
    id: &str,
    include_schema: bool,
    value: serde_json::Value,
    publication: pub_sub::Publication,
    received: Vec<u8>,
    result: Result<Data, DataError>,
)
    requires
        call_ensures(pub_sub::ZenohDataProvider::write, (provider, id, value), publication),
        call_ensures(
            pub_sub::ZenohDataProvider::read,
            (provider, id, include_schema, pub_sub::Delivery::Received(received)),
            result,
        ),
        received@ == encode_utf8(publication.payload@),
        json::survives_text(json::json(value)),
    ensures
        publication.payload@ == json::printed(value),
        result matches Ok(found) && json::json(found.data) == json::json(value),
{
    assert(provider.read_access(id@, pub_sub::Delivery::Received(received))
        == crate::entity::Access::Document(json::json(value)));
}

/// A write succeeds exactly where the publication did, and else fails with its text.
pub proof fn law_write_ends_as_the_publication_did(
    provider: &pub_sub::ZenohDataProvider,
    published: Result<(), String>,
    result: Result<(), DataError>,
)
    requires
        call_ensures(pub_sub::ZenohDataProvider::written, (provider, published), result),
    ensures
        result is Ok <==> published is Ok,
        published matches Err(reason) ==> (result matches Err(DataError::Internal(text)) && text@
            == reason@),
{
}

}
