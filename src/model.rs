use vstd::prelude::*;
use vstd::string::StringExecFns;

verus! {

/// A point in time, as microseconds since the Unix epoch (UTC).
#[derive(Clone, Copy, Debug, PartialEq, Eq, Structural)]
pub struct Timestamp {
    pub unix_micros: i64,
}

/// Lifecycle state of a masked email alias.
#[derive(Clone, Copy, Debug, PartialEq, Eq, Structural)]
pub enum MaskedEmailState {
    TemporalPending,
    Active,
    Disabled,
    MarkedForDeletion,
}

pub open spec fn state_label(state: MaskedEmailState) -> Seq<char> {
    match state {
        MaskedEmailState::TemporalPending => "pending"@,
        MaskedEmailState::Active => "enabled"@,
        MaskedEmailState::Disabled => "disabled"@,
        MaskedEmailState::MarkedForDeletion => "deleted"@,
    }
}

impl MaskedEmailState {
    /// The word the remote service uses for this state.
    pub fn to_string(&self) -> (r: String)
        ensures
            r@ == state_label(*self),
    {
        match self {
            MaskedEmailState::TemporalPending => "pending".to_owned(),
            MaskedEmailState::Active => "enabled".to_owned(),
            MaskedEmailState::Disabled => "disabled".to_owned(),
            MaskedEmailState::MarkedForDeletion => "deleted".to_owned(),
        }
    }
}

/// One masked email alias as the store keeps it.
#[derive(Debug, PartialEq)]
pub struct MaskedEmail {
    pub internal_id: String,
    pub email: String,
    pub description: Option<String>,
    pub web_site: Option<String>,
    pub integration_url: Option<String>,
    pub state: MaskedEmailState,
    pub created_at: Timestamp,
    pub last_message_at: Option<Timestamp>,
}

/// The text of an optional field, empty when it is absent.
pub open spec fn text_or_empty(t: Option<String>) -> Seq<char> {
    match t {
        Some(s) => s@,
        None => Seq::empty(),
    }
}

/// How an alias is listed for browsing: `[email] "domain" | "description"`.
pub open spec fn summary_text(e: MaskedEmail) -> Seq<char> {
    "["@ + e.email@ + "] \""@ + text_or_empty(e.web_site) + "\" | \""@ + text_or_empty(e.description)
        + "\""@
}

fn append_optional(r: &mut String, t: &Option<String>)
    ensures
        final(r)@ == old(r)@ + text_or_empty(*t),
{
    match t {
        Some(s) => r.append(s.as_str()),
        None => {
            assert(old(r)@ + Seq::<char>::empty() =~= old(r)@);
        },
    }
}

impl MaskedEmail {
    /// The line under which this alias is listed for browsing.
    pub fn summary_line(&self) -> (r: String)
        ensures
            r@ == summary_text(*self),
    {
        let mut r = "[".to_owned();
        r.append(self.email.as_str());
        r.append("] \"");
        append_optional(&mut r, &self.web_site);
        r.append("\" | \"");
        append_optional(&mut r, &self.description);
        r.append("\"");
        r
    }
}

/// Lifecycle state of an alias as the remote service names it.
#[derive(Clone, Copy, Debug, PartialEq, Eq, Structural)]
pub enum MaskedEmailStateJson {
    Pendind,
    Enabled,
    Disabled,
    Deleted,
}

pub open spec fn state_of_json(value: MaskedEmailStateJson) -> MaskedEmailState {
    match value {
        MaskedEmailStateJson::Pendind => MaskedEmailState::TemporalPending,
        MaskedEmailStateJson::Enabled => MaskedEmailState::Active,
        MaskedEmailStateJson::Disabled => MaskedEmailState::Disabled,
        MaskedEmailStateJson::Deleted => MaskedEmailState::MarkedForDeletion,
    }
}

impl From<MaskedEmailStateJson> for MaskedEmailState {
    fn from(value: MaskedEmailStateJson) -> (r: Self)
        ensures
            r == state_of_json(value),
    {
        match value {
            MaskedEmailStateJson::Pendind => MaskedEmailState::TemporalPending,
            MaskedEmailStateJson::Enabled => MaskedEmailState::Active,
            MaskedEmailStateJson::Disabled => MaskedEmailState::Disabled,
            MaskedEmailStateJson::Deleted => MaskedEmailState::MarkedForDeletion,
        }
    }
}

impl vstd::std_specs::convert::FromSpecImpl<MaskedEmailStateJson> for MaskedEmailState {
    open spec fn obeys_from_spec() -> bool {
        true
    }

    open spec fn from_spec(v: MaskedEmailStateJson) -> MaskedEmailState {
        state_of_json(v)
    }
}

/// One alias as the remote service describes it.
pub struct MaskedEmailJson {
    pub id: String,
    pub email: String,
    pub description: Option<String>,
    pub for_domain: Option<String>,
    pub url: Option<String>,
    pub state: MaskedEmailStateJson,
    pub created_at: Timestamp,
    pub last_message_at: Option<Timestamp>,
}

pub open spec fn email_of_json(value: MaskedEmailJson) -> MaskedEmail {
    MaskedEmail {
        internal_id: value.id,
        email: value.email,
        description: value.description,
        web_site: value.for_domain,
        integration_url: value.url,
        state: state_of_json(value.state),
        created_at: value.created_at,
        last_message_at: value.last_message_at,
    }
}

impl From<MaskedEmailJson> for MaskedEmail {
    fn from(value: MaskedEmailJson) -> (r: Self)
        ensures
            r == email_of_json(value),
    {
        MaskedEmail {
            internal_id: value.id,
            email: value.email,
            description: value.description,
            web_site: value.for_domain,
            integration_url: value.url,
            state: MaskedEmailState::from(value.state),
            created_at: value.created_at,
            last_message_at: value.last_message_at,
        }
    }
}

impl vstd::std_specs::convert::FromSpecImpl<MaskedEmailJson> for MaskedEmail {
    open spec fn obeys_from_spec() -> bool {
        true
    }

    open spec fn from_spec(v: MaskedEmailJson) -> MaskedEmail {
        email_of_json(v)
    }
}

/// Relies on chrono's `Utc::now` and `DateTime::timestamp_micros`: the
/// current time read from the system clock.
#[verifier::external_body]
fn utc_now_micros() -> i64 {
    chrono::Utc::now().timestamp_micros()
}

impl Timestamp {
    /// The current time.
    pub fn now() -> Timestamp {
        Timestamp { unix_micros: utc_now_micros() }
    }
}

} // verus!
