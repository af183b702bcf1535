//! How a provider is set up, and what it asks the network for.

use vstd::prelude::*;

use crate::cli;
use crate::session;
use crate::zenoh as query;
use crate::zenoh_pub_sub as pub_sub;

verus! {

/// Whether `end` is what setting the mode to that of a client and then the endpoint to a list of the
/// one `endpoint`, in quotes, can end in: a refusal of the first, or what came of the second.
pub open spec fn connects(
    base: ::zenoh::Config,
    endpoint: Seq<char>,
    end: Result<::zenoh::Config, Seq<char>>,
) -> bool {
    let modes = session::setting_outcomes(base, "mode"@, seq!['"', 'c', 'l', 'i', 'e', 'n', 't', '"']);
    let list = seq!['[', '"'] + endpoint + seq!['"', ']'];
    ||| end is Err && modes.contains(end)
    ||| exists|client: ::zenoh::Config|
        modes.contains(Ok(client)) && #[trigger] session::setting_outcomes(
            client,
            "connect/endpoints"@,
            list,
        ).contains(end)
}

/// Whether configuring ended in the configuration or in the text of the refusal.
pub open spec fn ends_connected(
    base: ::zenoh::Config,
    endpoint: Seq<char>,
    result: Result<::zenoh::Config, String>,
) -> bool {
    match result {
        Ok(config) => connects(base, endpoint, Ok(config)),
        Err(text) => connects(base, endpoint, Err(text@)),
    }
}

/// Configuring a client is connecting it.
proof fn lemma_connects(
    base: ::zenoh::Config,
    endpoint: Seq<char>,
    end: Result<::zenoh::Config, Seq<char>>,
)
    requires
        session::client_of(base, endpoint, end),
    ensures
        connects(base, endpoint, end),
{
    reveal_strlit("\"client\"");
    reveal_strlit("[\"");
    reveal_strlit("\"]");
    let mode = seq!['"', 'c', 'l', 'i', 'e', 'n', 't', '"'];
    assert("\"client\""@ =~= mode);
    assert("[\""@ =~= seq!['[', '"']);
    assert("\"]"@ =~= seq!['"', ']']);
    let text = session::endpoints_text(endpoint);
    assert(text =~= seq!['[', '"'] + endpoint + seq!['"', ']']);
    if !(end is Err && session::mode_outcomes(base).contains(end)) {
        let client = choose|client: ::zenoh::Config|
            session::mode_outcomes(base).contains(Ok(client))
                && #[trigger] session::endpoint_outcomes(client, endpoint).contains(end);
        assert(session::setting_outcomes(
            client,
            "connect/endpoints"@,
            seq!['[', '"'] + endpoint + seq!['"', ']'],
        ).contains(end));
    }
}

/// The list of endpoints is the endpoint as it is, in quotes and square brackets.
pub proof fn law_endpoint_stands_quoted_in_a_list(endpoint: &str, result: String)
    requires
        call_ensures(session::endpoints_json, (endpoint,), result),
    ensures
        result@ == seq!['[', '"'] + endpoint@ + seq!['"', ']'],
{
    reveal_strlit("[\"");
    reveal_strlit("\"]");
    assert("[\""@ =~= seq!['[', '"']);
    assert("\"]"@ =~= seq!['"', ']']);
}

/// A session is configured as a client of the one endpoint; a refusal is handed on with its text.
pub proof fn law_session_is_a_client_of_the_endpoint(
    base: ::zenoh::Config,
    endpoint: &str,
    result: Result<::zenoh::Config, String>,
)
    requires
        call_ensures(session::configure, (base, endpoint), result),
    ensures
        ends_connected(base, endpoint@, result),
{
    lemma_connects(base, endpoint@, session::end_of(result));
}

/// Both kinds of providers are configured as clients of the endpoint in their own configuration.
pub proof fn law_providers_connect_to_their_endpoint(
    endpoint: &str,
    result: Result<::zenoh::Config, String>,
    queried: &query::ZenohConfig,
    queried_result: Result<::zenoh::Config, String>,
    publishing: &pub_sub::ZenohConfig,
    publishing_result: Result<::zenoh::Config, String>,
)
    requires
        call_ensures(session::client_config, (endpoint,), result),
        call_ensures(query::ZenohConfig::session_config, (queried,), queried_result),
        call_ensures(pub_sub::ZenohConfig::session_config, (publishing,), publishing_result),
    ensures
        exists|base: ::zenoh::Config| #[trigger]
            ends_connected(base, endpoint@, result),
        exists|base: ::zenoh::Config| #[trigger]
            ends_connected(base, queried.endpoint@, queried_result),
        exists|base: ::zenoh::Config| #[trigger]
            ends_connected(base, publishing.endpoint@, publishing_result),
{
    let base = choose|base: ::zenoh::Config| #[trigger]
        session::client_of(base, endpoint@, session::end_of(result));
    lemma_connects(base, endpoint@, session::end_of(result));
    assert(ends_connected(base, endpoint@, result));
    let base = choose|base: ::zenoh::Config| #[trigger]
        session::client_of(base, queried.endpoint@, session::end_of(queried_result));
    lemma_connects(base, queried.endpoint@, session::end_of(queried_result));
    assert(ends_connected(base, queried.endpoint@, queried_result));
    let base = choose|base: ::zenoh::Config| #[trigger]
        session::client_of(base, publishing.endpoint@, session::end_of(publishing_result));
    lemma_connects(base, publishing.endpoint@, session::end_of(publishing_result));
    assert(ends_connected(base, publishing.endpoint@, publishing_result));
}

/// Of two refusals the first one counts, and without any both settings went well.
pub proof fn law_first_of_two_refusals_counts(
    mode: Result<(), String>,
    endpoints: Result<(), String>,
    result: Result<(), String>,
)
    requires
        call_ensures(session::first_refusal, (mode, endpoints), result),
    ensures
        result is Ok <==> mode is Ok && endpoints is Ok,
        mode matches Err(text) ==> (result matches Err(found) && found@ == text@),
        endpoints matches Err(text) ==> mode is Ok ==> (result matches Err(found) && found@
            == text@),
{
}

/// A provider keeps the configuration that it was given once its session is open, asks for what the
/// configured selector selects, and is not there where the session failed.
pub proof fn law_queried_provider_keeps_its_configuration(
    config: query::ZenohConfig,
    opened: Result<(), String>,
    result: Result<query::ZenohProvider, String>,
    selector: &str,
)
    requires
        call_ensures(query::ZenohProvider::new, (config, opened), result),
        result matches Ok(provider) ==> call_ensures(
            query::ZenohProvider::discovery_query,
            (&provider,),
            selector,
        ),
    ensures
        opened is Ok ==> (result matches Ok(provider) && provider.config == config && selector@
            == config.discovery_selector@),
        opened matches Err(text) ==> (result matches Err(found) && found@ == text@),
{
}

/// So does a provider for publishing robots.
pub proof fn law_publishing_provider_keeps_its_configuration(
    config: pub_sub::ZenohConfig,
    opened: Result<(), String>,
    result: Result<pub_sub::ZenohProvider, String>,
    selector: &str,
)
    requires
        call_ensures(pub_sub::ZenohProvider::new, (config, opened), result),
        result matches Ok(provider) ==> call_ensures(
            pub_sub::ZenohProvider::discovery_query,
            (&provider,),
            selector,
        ),
    ensures
        opened is Ok ==> (result matches Ok(provider) && provider.config == config && selector@
            == config.discovery_selector@),
        opened matches Err(text) ==> (result matches Err(found) && found@ == text@),
{
}

/// Where nothing is configured, both kinds of providers go to the local router, discover everything
/// and take the first part of a key for the robot; queried data goes into one category by default,
/// and a read waits five seconds for a publication.
pub proof fn law_defaults(queried: query::ZenohConfig, publishing: pub_sub::ZenohConfig)
    requires
        call_ensures(<query::ZenohConfig as Default>::default, (), queried),
        call_ensures(<pub_sub::ZenohConfig as Default>::default, (), publishing),
    ensures
        queried.endpoint@ == "tcp/localhost:7447"@,
        publishing.endpoint@ == "tcp/localhost:7447"@,
        queried.discovery_selector@ == "**"@,
        publishing.discovery_selector@ == "**"@,
        queried.robot_name_index == 0,
        publishing.robot_name_index == 0,
        queried.category@ == "currentData"@,
        pub_sub::READ_TIMEOUT_SECONDS == 5,
{
}

/// Where no options are given, the gateway serves under a fixed local URL, checks tokens of one
/// issuer with one algorithm, and goes to one router.
pub proof fn law_option_defaults()
    ensures
        cli::ABOUT@ == "OpenSOVD Gateway Server"@,
        cli::DEFAULT_URL@ == "http://localhost:7690/sovd"@,
        cli::DEFAULT_JWT_ALGORITHM@ == "HS512"@,
        cli::DEFAULT_JWT_ISSUER@ == "OpenSOVD"@,
        cli::DEFAULT_ZENOH_ENDPOINT@ == "tcp/host.docker.internal:7447"@,
{
}

}
