//! The configuration of the Zenoh session that a provider runs on.

use vstd::prelude::*;

verus! {

/// `zenoh::Config`, the configuration of a session, carried as it is.
#[verifier::external_type_specification]
#[verifier::external_body]
pub struct ExConfig(::zenoh::Config);

/// All the ways in which `Config::insert_json5` can end when it sets a key of a configuration to a
/// JSON5 text: with the configuration that it leaves, or with the text of a refusal. There may be
/// several. The JSON5 parser refuses a text when the stack of its thread or a limit of the process
/// is used up, and the text of a refusal names a source file of the build.
pub uninterp spec fn setting_outcomes(
    config: ::zenoh::Config,
    key: Seq<char>,
    value: Seq<char>,
) -> Set<Result<::zenoh::Config, Seq<char>>>;

/// The JSON text of a list with one endpoint. The endpoint stands in it as it is.
pub open spec fn endpoints_text(endpoint: Seq<char>) -> Seq<char> {
    "[\""@ + endpoint + "\"]"@
}

/// The ways in which setting the mode to that of a client can end.
pub open spec fn mode_outcomes(base: ::zenoh::Config) -> Set<Result<::zenoh::Config, Seq<char>>> {
    setting_outcomes(base, "mode"@, "\"client\""@)
}

/// The ways in which setting the router's endpoint can end.
pub open spec fn endpoint_outcomes(client: ::zenoh::Config, endpoint: Seq<char>) -> Set<
    Result<::zenoh::Config, Seq<char>>,
> {
    setting_outcomes(client, "connect/endpoints"@, endpoints_text(endpoint))
}

/// Whether making `base` the configuration of a client of the router at `endpoint` can end in
/// `end`: in a refusal of the mode, or, with the mode set, in what came of setting the endpoint.
pub open spec fn client_of(
    base: ::zenoh::Config,
    endpoint: Seq<char>,
    end: Result<::zenoh::Config, Seq<char>>,
) -> bool {
    ||| end is Err && mode_outcomes(base).contains(end)
    ||| exists|client: ::zenoh::Config|
        mode_outcomes(base).contains(Ok(client)) && #[trigger] endpoint_outcomes(
            client,
            endpoint,
        ).contains(end)
}

/// A configuration or the characters of a refusal.
pub open spec fn end_of(result: Result<::zenoh::Config, String>) -> Result<
    ::zenoh::Config,
    Seq<char>,
> {
    match result {
        Ok(config) => Ok(config),
        Err(text) => Err(text@),
    }
}

/// `Config::default`: Zenoh's own default settings. Nothing is claimed of them.
#[verifier::external_body]
fn default_config() -> (result: ::zenoh::Config) {
    ::zenoh::Config::default()
}

/// `Config::insert_json5` on the two keys that a client needs: sets the key, or refuses the
/// setting. Claimed is only that it ends in one of the outcomes for the configuration and the two
/// texts. Which one is left open, and so is the configuration after a refusal.
#[verifier::external_body]
fn insert_setting(config: &mut ::zenoh::Config, key: &str, value: &str) -> (result: Result<
    (),
    String,
>)
    requires
        key@ == "mode"@ || key@ == "connect/endpoints"@,
    ensures
        setting_outcomes(*old(config), key@, value@).contains(
            match result {
                Ok(_) => Ok(*final(config)),
                Err(text) => Err(text@),
            },
        ),
{
    config.insert_json5(key, value).map_err(|e| e.to_string())
}

/// Writes the list of endpoints for one endpoint.
pub fn endpoints_json(endpoint: &str) -> (result: String)
    ensures
        result@ == endpoints_text(endpoint@),
{
    "[\"".to_owned().concat(endpoint).concat("\"]")
}

/// The first refusal of two settings, where one was refused.
pub fn first_refusal(mode: Result<(), String>, endpoints: Result<(), String>) -> (result: Result<
    (),
    String,
>)
    ensures
        result == (match mode {
            Ok(_) => endpoints,
            Err(_) => mode,
        }),
{
    match mode {
        Ok(_) => endpoints,
        Err(text) => Err(text),
    }
}

/// Makes `base` the configuration of a client of the router at `endpoint`, or hands on the text of
/// the first refusal.
pub fn configure(base: ::zenoh::Config, endpoint: &str) -> (result: Result<::zenoh::Config, String>)
    ensures
        client_of(base, endpoint@, end_of(result)),
{
    let mut config = base;
    let mode = insert_setting(&mut config, "mode", "\"client\"");
    let endpoints = if mode.is_ok() {
        let ghost client = config;
        let endpoints = insert_setting(
            &mut config,
            "connect/endpoints",
            endpoints_json(endpoint).as_str(),
        );
        assert(endpoint_outcomes(client, endpoint@).contains(
            match endpoints {
                Ok(_) => Ok(config),
                Err(text) => Err(text@),
            },
        ));
        endpoints
    } else {
        Ok(())
    };
    match first_refusal(mode, endpoints) {
        Ok(_) => Ok(config),
        Err(text) => Err(text),
    }
}

/// The configuration of a client of the router at `endpoint`, on top of Zenoh's defaults.
pub fn client_config(endpoint: &str) -> (result: Result<::zenoh::Config, String>)
    ensures
        exists|base: ::zenoh::Config| #[trigger] client_of(base, endpoint@, end_of(result)),
{
    configure(default_config(), endpoint)
}

}
