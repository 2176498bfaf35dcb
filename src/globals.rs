use vstd::prelude::*;
use vstd::string::*;

verus! {

/// The settings read from the environment at startup; `None` where a variable is unset.
#[derive(Clone, Debug)]
pub struct EnvSnapshot {
    pub magnus_id: Option<String>,
    pub open_ai_key: Option<String>,
    pub ip_api_key: Option<String>,
    pub opencage_key: Option<String>,
    pub weather_api_user_agent: Option<String>,
    pub auth_domain: Option<String>,
    pub auth_client_id: Option<String>,
    pub is_prod: Option<String>,
}

/// The session context: built once at startup and handed to each component, in place of
/// process-wide mutable state.
#[derive(Clone, Debug)]
pub struct Globals {
    pub magnus_id: String,
    pub open_ai_key: String,
    pub ip_api_key: String,
    pub opencage_key: String,
    pub weather_api_user_agent: String,
    pub auth_domain: String,
    pub auth_client_id: String,
    pub domain: String,
    pub thread_id: String,
}

pub const PROD_DOMAIN: &'static str = "https://magnusbackend.azurewebsites.net";

pub const LOCAL_DOMAIN: &'static str = "http://localhost:3000";

/// A setting's value, or empty text when it is unset.
pub open spec fn value_or_empty(v: Option<String>) -> Seq<char> {
    match v {
        Some(s) => s@,
        None => Seq::empty(),
    }
}

/// The backend domain: production when `IS_PROD` is `true`, the local server for any other
/// value, and nothing when it is unset.
pub open spec fn domain_spec(is_prod: Option<String>) -> Seq<char> {
    match is_prod {
        Some(v) => if v@ == "true"@ {
            PROD_DOMAIN@
        } else {
            LOCAL_DOMAIN@
        },
        None => Seq::empty(),
    }
}

pub fn value_or_empty_of(v: &Option<String>) -> (r: String)
    ensures
        r@ == value_or_empty(*v),
{
    match v {
        Some(s) => s.clone(),
        None => String::new(),
    }
}

pub fn domain_for(is_prod: &Option<String>) -> (r: String)
    ensures
        r@ == domain_spec(*is_prod),
{
    match is_prod {
        Some(v) => {
            let prod_flag = String::from_str("true");
            if *v == prod_flag {
                String::from_str(PROD_DOMAIN)
            } else {
                String::from_str(LOCAL_DOMAIN)
            }
        },
        None => String::new(),
    }
}

impl Globals {
    /// The context for the settings found in the environment. The assistant's id cannot be
    /// done without, so there is no context when it is unset; every other setting falls
    /// back to empty text. No conversation thread exists yet.
    pub fn from_env(env: &EnvSnapshot) -> (r: Option<Globals>)
        ensures
            env.magnus_id is None <==> r is None,
            r matches Some(g) ==> {
                &&& g.magnus_id@ == value_or_empty(env.magnus_id)
                &&& g.open_ai_key@ == value_or_empty(env.open_ai_key)
                &&& g.ip_api_key@ == value_or_empty(env.ip_api_key)
                &&& g.opencage_key@ == value_or_empty(env.opencage_key)
                &&& g.weather_api_user_agent@ == value_or_empty(env.weather_api_user_agent)
                &&& g.auth_domain@ == value_or_empty(env.auth_domain)
                &&& g.auth_client_id@ == value_or_empty(env.auth_client_id)
                &&& g.domain@ == domain_spec(env.is_prod)
                &&& g.thread_id@.len() == 0
            },
    {
        match &env.magnus_id {
            None => None,
            Some(id) => Some(
                Globals {
                    magnus_id: id.clone(),
                    open_ai_key: value_or_empty_of(&env.open_ai_key),
                    ip_api_key: value_or_empty_of(&env.ip_api_key),
                    opencage_key: value_or_empty_of(&env.opencage_key),
                    weather_api_user_agent: value_or_empty_of(&env.weather_api_user_agent),
                    auth_domain: value_or_empty_of(&env.auth_domain),
                    auth_client_id: value_or_empty_of(&env.auth_client_id),
                    domain: domain_for(&env.is_prod),
                    thread_id: String::new(),
                },
            ),
        }
    }
}

pub fn get_domain(g: &Globals) -> (r: &str)
    ensures
        r@ == g.domain@,
{
    g.domain.as_str()
}

pub fn get_magnus_id(g: &Globals) -> (r: &String)
    ensures
        r == &g.magnus_id,
{
    &g.magnus_id
}

pub fn get_open_ai_key(g: &Globals) -> (r: &String)
    ensures
        r == &g.open_ai_key,
{
    &g.open_ai_key
}

pub fn get_ip_api_key(g: &Globals) -> (r: &String)
    ensures
        r == &g.ip_api_key,
{
    &g.ip_api_key
}

pub fn get_opencage_key(g: &Globals) -> (r: &String)
    ensures
        r == &g.opencage_key,
{
    &g.opencage_key
}

pub fn get_weather_api_user_agent(g: &Globals) -> (r: &String)
    ensures
        r == &g.weather_api_user_agent,
{
    &g.weather_api_user_agent
}

pub fn get_auth_domain(g: &Globals) -> (r: &String)
    ensures
        r == &g.auth_domain,
{
    &g.auth_domain
}

pub fn get_auth_client_id(g: &Globals) -> (r: &String)
    ensures
        r == &g.auth_client_id,
{
    &g.auth_client_id
}

/// The id of the current conversation thread.
pub fn get_thread_id(g: &Globals) -> (r: String)
    ensures
        r@ == g.thread_id@,
{
    g.thread_id.clone()
}

/// Records the id of the conversation thread; every other setting is kept.
pub fn set_thread_id(g: &mut Globals, new_value: String)
    ensures
        final(g).thread_id == new_value,
        final(g).magnus_id == old(g).magnus_id,
        final(g).open_ai_key == old(g).open_ai_key,
        final(g).ip_api_key == old(g).ip_api_key,
        final(g).opencage_key == old(g).opencage_key,
        final(g).weather_api_user_agent == old(g).weather_api_user_agent,
        final(g).auth_domain == old(g).auth_domain,
        final(g).auth_client_id == old(g).auth_client_id,
        final(g).domain == old(g).domain,
{
    g.thread_id = new_value;
}

} // verus!
