//! The decisions behind the command line: what adding a source takes, what
//! counts as a confirmation, how states and errors are shown.

use vstd::prelude::*;
use vstd::string::{StringExecFns, StringSliceAdditionalSpecFns};
use vstd::utf8::{decode_utf8, encode_utf8, is_char_boundary};
use crate::registry::{connector_named, has_connector, AuthType, ConnectorDescriptorView, Registry};
use crate::text::{str_eq, trim, trimmed};

verus! {

/// The address that an authorization on the command line redirects to.
pub open spec fn local_redirect_uri() -> Seq<char> {
    "http://localhost:8080"@
}

/// What adding a source comes to.
#[derive(Clone, Debug, PartialEq, Eq)]
pub enum AddSourcePlan {
    /// The source is a device: register it.
    RegisterDevice { device_type: String, device_id: String, name: String },
    /// The source is an account: start an authorization that redirects to
    /// the given address.
    Authorize { provider: String, redirect_uri: String },
}

/// The model of an [`AddSourcePlan`].
pub enum AddSourcePlanView {
    RegisterDevice { device_type: Seq<char>, device_id: Seq<char>, name: Seq<char> },
    Authorize { provider: Seq<char>, redirect_uri: Seq<char> },
}

impl View for AddSourcePlan {
    type V = AddSourcePlanView;

    open spec fn view(&self) -> AddSourcePlanView {
        match *self {
            AddSourcePlan::RegisterDevice { device_type, device_id, name } => AddSourcePlanView::RegisterDevice {
                device_type: device_type@,
                device_id: device_id@,
                name: name@,
            },
            AddSourcePlan::Authorize { provider, redirect_uri } => AddSourcePlanView::Authorize {
                provider: provider@,
                redirect_uri: redirect_uri@,
            },
        }
    }
}

/// Why a device source cannot be added as asked.
#[derive(Clone, Copy, Debug, PartialEq, Eq, Structural)]
pub enum AddSourceError {
    MissingDeviceId,
    MissingName,
}

/// The text of an [`AddSourceError`].
pub open spec fn add_source_error_text(e: AddSourceError) -> Seq<char> {
    match e {
        AddSourceError::MissingDeviceId => "device_id is required for device sources"@,
        AddSourceError::MissingName => "name is required for device sources"@,
    }
}

impl AddSourceError {
    /// The text of the error.
    pub fn message(&self) -> (text: String)
        ensures
            text@ == add_source_error_text(*self),
    {
        match self {
            AddSourceError::MissingDeviceId => "device_id is required for device sources".to_string(),
            AddSourceError::MissingName => "name is required for device sources".to_string(),
        }
    }
}

/// Tells whether the registry knows the source type as a device.
pub open spec fn is_device_source(registry: Seq<ConnectorDescriptorView>, source_type: Seq<char>) -> bool {
    has_connector(registry, source_type) && connector_named(registry, source_type).auth_type == AuthType::Device
}

/// What adding a source of the given type comes to: a device needs its id
/// and its name (the id is asked for first), every other type, known or
/// not, goes through an authorization.
pub open spec fn add_source_plan(
    device: bool,
    source_type: Seq<char>,
    device_id: Option<Seq<char>>,
    name: Option<Seq<char>>,
) -> Result<AddSourcePlanView, AddSourceError> {
    if device {
        match (device_id, name) {
            (None, _) => Err(AddSourceError::MissingDeviceId),
            (Some(_), None) => Err(AddSourceError::MissingName),
            (Some(id), Some(n)) => Ok(
                AddSourcePlanView::RegisterDevice { device_type: source_type, device_id: id, name: n },
            ),
        }
    } else {
        Ok(AddSourcePlanView::Authorize { provider: source_type, redirect_uri: local_redirect_uri() })
    }
}

/// The model of the outcome of planning.
pub open spec fn plan_view(r: Result<AddSourcePlan, AddSourceError>) -> Result<AddSourcePlanView, AddSourceError> {
    match r {
        Ok(plan) => Ok(plan@),
        Err(e) => Err(e),
    }
}

/// Decides what adding a source of the given type comes to.
pub fn plan_add_source(
    registry: &Registry,
    source_type: &str,
    device_id: Option<String>,
    name: Option<String>,
) -> (plan: Result<AddSourcePlan, AddSourceError>)
    requires
        registry.wf(),
    ensures
        plan_view(plan) == add_source_plan(
            is_device_source(registry@, source_type@),
            source_type@,
            crate::text::opt_chars(device_id),
            crate::text::opt_chars(name),
        ),
{
    let device = match registry.describe(source_type) {
        Some(descriptor) => descriptor.is_device(),
        None => false,
    };
    if device {
        let device_id = match device_id {
            Some(id) => id,
            None => {
                return Err(AddSourceError::MissingDeviceId);
            },
        };
        let name = match name {
            Some(n) => n,
            None => {
                return Err(AddSourceError::MissingName);
            },
        };
        Ok(AddSourcePlan::RegisterDevice { device_type: source_type.to_string(), device_id, name })
    } else {
        Ok(
            AddSourcePlan::Authorize {
                provider: source_type.to_string(),
                redirect_uri: "http://localhost:8080".to_string(),
            },
        )
    }
}

/// The text in lower case, as `str::to_lowercase` gives it.
pub uninterp spec fn lowercased(s: Seq<char>) -> Seq<char>;

/// `str::to_lowercase` of std: the text with each character in lower case,
/// by the rules of Unicode. The result depends on the text alone and is
/// known here by its name only.
#[verifier::external_body]
fn to_lowercase(s: &str) -> (lower: String)
    ensures
        lower@ == lowercased(s@),
{
    s.to_lowercase()
}

/// Tells whether an answer confirms a deletion: it reads `yes`, in capital
/// or small letters, with or without white space around it.
pub open spec fn is_confirmation(answer: Seq<char>) -> bool {
    lowercased(trimmed(answer)) == "yes"@
}

/// Tells whether an answer confirms a deletion.
pub fn confirms_deletion(answer: &str) -> (confirmed: bool)
    ensures
        confirmed == is_confirmation(answer@),
{
    let answer = trim(answer);
    let lower = to_lowercase(answer.as_str());
    str_eq(lower.as_str(), "yes")
}

/// How the state of a source is shown.
pub fn active_label(is_active: bool) -> (label: String)
    ensures
        label@ == if is_active {
            "active"@
        } else {
            "inactive"@
        },
{
    if is_active {
        "active".to_string()
    } else {
        "inactive".to_string()
    }
}

/// How the state of a stream is shown.
pub fn enabled_label(is_enabled: bool) -> (label: String)
    ensures
        label@ == if is_enabled {
            "enabled"@
        } else {
            "disabled"@
        },
{
    if is_enabled {
        "enabled".to_string()
    } else {
        "disabled".to_string()
    }
}

/// The last place at or before `at` where the bytes of a text can be cut
/// without splitting a character.
pub open spec fn cut_point(bytes: Seq<u8>, at: int) -> int
    decreases at,
{
    if at <= 0 {
        0
    } else if is_char_boundary(bytes, at) {
        at
    } else {
        cut_point(bytes, at - 1)
    }
}

/// An error text as a table shows it: a text of more than 30 bytes is cut
/// to its first 27 bytes, or to fewer where the cut would split a
/// character, and three dots follow; a shorter text stays.
pub open spec fn shortened_error(error: Seq<char>) -> Seq<char> {
    let bytes = encode_utf8(error);
    if bytes.len() > 30 {
        decode_utf8(bytes.subrange(0, cut_point(bytes, 27))) + "..."@
    } else {
        error
    }
}

/// Shortens an error text for a table.
pub fn truncate_error(error: &str) -> (shown: String)
    ensures
        shown@ == shortened_error(error@),
{
    if error.as_bytes().len() <= 30 {
        return error.to_string();
    }
    let mut at: usize = 27;
    while at > 0 && !error.is_char_boundary(at)
        invariant
            at <= 27,
            cut_point(error.spec_bytes(), 27) == cut_point(error.spec_bytes(), at as int),
        decreases at,
    {
        at -= 1;
    }
    proof {
        vstd::utf8::encode_utf8_valid_utf8(error@);
        vstd::utf8::is_char_boundary_start_end_of_seq(error.spec_bytes());
        assert(is_char_boundary(error.spec_bytes(), at as int));
        assert(cut_point(error.spec_bytes(), at as int) == at);
    }
    let (head, _) = error.split_at(at);
    proof {
        vstd::utf8::encode_utf8_decode_utf8(head@);
    }
    head.to_string().concat("...")
}

} // verus!
