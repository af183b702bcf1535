//! What listings hold.

use vstd::prelude::*;

use crate::entity::{DataError, DataFilter, DiscoveryError, Metadata};
use crate::zenoh as query;
use crate::zenoh_pub_sub as pub_sub;

verus! {

/// A robot that answers queries is listed as a whole first, under its own name and the fallback
/// category, readable and not writable, with nothing in the optional parts.
pub proof fn law_listing_starts_with_the_robot(
    provider: &query::ZenohDataProvider,
    filter: DataFilter,
    result: Result<Vec<Metadata>, DataError>,
)
    requires
        call_ensures(query::ZenohDataProvider::list, (provider, filter), result),
    ensures
        result matches Ok(list) && {
            &&& list.len() == provider.data_points.len() + 1
            &&& list[0].id@ == "telemetry"@
            &&& list[0].name@ == provider.robot_name@ + " All Telemetry"@
            &&& list[0].category@ == provider.fallback_category@
            &&& list[0].is_readable && !list[0].is_writable
            &&& list[0].translation_id is None && list[0].schema is None
            &&& list[0].groups.len() == 0 && list[0].tags.len() == 0
        },
{
}

/// Every data point of a robot that answers queries is listed behind that, in order, with its own
/// id, name and category, readable and not writable, with nothing in the optional parts.
pub proof fn law_listing_holds_each_point_as_it_is(
    provider: &query::ZenohDataProvider,
    filter: DataFilter,
    result: Result<Vec<Metadata>, DataError>,
    i: int,
)
    requires
        call_ensures(query::ZenohDataProvider::list, (provider, filter), result),
        0 <= i < provider.data_points.len(),
    ensures
        result matches Ok(list) && {
            &&& list[i + 1].id@ == provider.data_points[i].id@
            &&& list[i + 1].name@ == provider.data_points[i].name@
            &&& list[i + 1].category@ == provider.data_points[i].category@
            &&& list[i + 1].is_readable && !list[i + 1].is_writable
            &&& list[i + 1].translation_id is None && list[i + 1].schema is None
            &&& list[i + 1].groups.len() == 0 && list[i + 1].tags.len() == 0
        },
{
    if let Ok(list) = result {
        assert(list@[i + 1].describes(
            provider.data_points@[i].id@,
            provider.data_points@[i].name@,
            provider.data_points@[i].category@,
            false,
        ));
    }
}

/// A publishing robot is listed by its data points and nothing else, in order, each with its own id
/// and name in one fixed category, readable and writable, with nothing in the optional parts.
pub proof fn law_published_points_are_listed_as_they_are(
    provider: &pub_sub::ZenohDataProvider,
    filter: DataFilter,
    result: Result<Vec<Metadata>, DataError>,
    i: int,
)
    requires
        call_ensures(pub_sub::ZenohDataProvider::list, (provider, filter), result),
    ensures
        result matches Ok(list) && list.len() == provider.data_points.len(),
        0 <= i < provider.data_points.len() ==> (result matches Ok(list) && {
            &&& list[i].id@ == provider.data_points[i].0@
            &&& list[i].name@ == provider.data_points[i].1@
            &&& list[i].category@ == "zenoh-pubsub"@
            &&& list[i].is_readable && list[i].is_writable
            &&& list[i].translation_id is None && list[i].schema is None
            &&& list[i].groups.len() == 0 && list[i].tags.len() == 0
        }),
{
    if let Ok(list) = result {
        if 0 <= i < provider.data_points.len() {
            assert(list[i].describes(
                provider.data_points[i].0@,
                provider.data_points[i].1@,
                "zenoh-pubsub"@,
                true,
            ));
        }
    }
}

/// An error hands out the text that it was made with.
pub proof fn law_errors_hand_out_their_text(
    text: String,
    not_found: String,
    internal: String,
    other: String,
)
    requires
        call_ensures(DataError::message, (&DataError::NotFound(text),), not_found),
        call_ensures(DataError::message, (&DataError::Internal(text),), internal),
        call_ensures(DiscoveryError::message, (&DiscoveryError::Other(text),), other),
    ensures
        not_found@ == text@,
        internal@ == text@,
        other@ == text@,
{
}

}
