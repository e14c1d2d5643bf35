//! The connector registry: which source types exist, how each one
//! authenticates, and which streams it offers in which sync modes.
//!
//! The registry is a lookup table. It is filled once and then only read.

use vstd::prelude::*;
use vstd::string::StringExecFns;
use crate::job::{SyncMode, SyncModeView};
use crate::text::{clone_opt_string, opt_chars, str_eq};

verus! {

/// How a source type authenticates.
#[derive(Clone, Copy, Debug, PartialEq, Eq, Structural)]
pub enum AuthType {
    OAuth2,
    Device,
    ApiKey,
    /// The source needs no credential.
    NoAuth,
}

/// One stream that a connector offers.
#[derive(Clone, Debug, PartialEq, Eq)]
pub struct StreamDescriptor {
    pub name: String,
    pub description: String,
    pub supports_incremental: bool,
    pub supports_full_refresh: bool,
    /// The table or sink that the stream's records go to.
    pub table_name: String,
}

/// The model of a [`StreamDescriptor`].
pub struct StreamDescriptorView {
    pub name: Seq<char>,
    pub description: Seq<char>,
    pub supports_incremental: bool,
    pub supports_full_refresh: bool,
    pub table_name: Seq<char>,
}

impl View for StreamDescriptor {
    type V = StreamDescriptorView;

    open spec fn view(&self) -> StreamDescriptorView {
        StreamDescriptorView {
            name: self.name@,
            description: self.description@,
            supports_incremental: self.supports_incremental,
            supports_full_refresh: self.supports_full_refresh,
            table_name: self.table_name@,
        }
    }
}

/// Tells whether a stream with the given capabilities can run in `mode`.
pub open spec fn mode_supported(supports_incremental: bool, supports_full_refresh: bool, mode: SyncModeView) -> bool {
    match mode {
        SyncModeView::Incremental { .. } => supports_incremental,
        SyncModeView::FullRefresh => supports_full_refresh,
    }
}

impl StreamDescriptor {
    /// Tells whether the stream can run in `mode`.
    pub fn supports(&self, mode: &SyncMode) -> (ok: bool)
        ensures
            ok == mode_supported(self.supports_incremental, self.supports_full_refresh, mode@),
    {
        match mode {
            SyncMode::Incremental { .. } => self.supports_incremental,
            SyncMode::FullRefresh => self.supports_full_refresh,
        }
    }

    /// The sync modes of the stream as a catalog shows them: `incremental`,
    /// `full`, both separated by a comma and a space, or nothing.
    pub fn sync_modes_label(&self) -> (label: String)
        ensures
            label@ == modes_label(self.supports_incremental, self.supports_full_refresh),
    {
        if self.supports_incremental && self.supports_full_refresh {
            "incremental".to_string().concat(", ").concat("full")
        } else if self.supports_incremental {
            "incremental".to_string()
        } else if self.supports_full_refresh {
            "full".to_string()
        } else {
            let label = String::new();
            assert(label@ =~= Seq::<char>::empty());
            label
        }
    }
}

/// The text of [`StreamDescriptor::sync_modes_label`].
pub open spec fn modes_label(supports_incremental: bool, supports_full_refresh: bool) -> Seq<char> {
    if supports_incremental && supports_full_refresh {
        "incremental"@ + ", "@ + "full"@
    } else if supports_incremental {
        "incremental"@
    } else if supports_full_refresh {
        "full"@
    } else {
        Seq::empty()
    }
}

/// The models of a sequence of stream descriptors.
pub open spec fn stream_descriptor_views(streams: Seq<StreamDescriptor>) -> Seq<StreamDescriptorView> {
    streams.map_values(|s: StreamDescriptor| s@)
}

/// What the registry knows of one source type.
#[derive(Clone, Debug, PartialEq, Eq)]
pub struct ConnectorDescriptor {
    pub name: String,
    pub display_name: String,
    pub description: String,
    pub auth_type: AuthType,
    pub streams: Vec<StreamDescriptor>,
    pub icon: Option<String>,
}

/// The model of a [`ConnectorDescriptor`].
pub struct ConnectorDescriptorView {
    pub name: Seq<char>,
    pub display_name: Seq<char>,
    pub description: Seq<char>,
    pub auth_type: AuthType,
    pub streams: Seq<StreamDescriptorView>,
    pub icon: Option<Seq<char>>,
}

impl View for ConnectorDescriptor {
    type V = ConnectorDescriptorView;

    open spec fn view(&self) -> ConnectorDescriptorView {
        ConnectorDescriptorView {
            name: self.name@,
            display_name: self.display_name@,
            description: self.description@,
            auth_type: self.auth_type,
            streams: stream_descriptor_views(self.streams@),
            icon: opt_chars(self.icon),
        }
    }
}

impl ConnectorDescriptorView {
    /// The first stream of that name which the connector declares.
    pub open spec fn stream(self, name: Seq<char>) -> Option<StreamDescriptorView> {
        first_stream_named(self.streams, name)
    }
}

/// The first descriptor of `streams` with the given name.
pub open spec fn first_stream_named(streams: Seq<StreamDescriptorView>, name: Seq<char>) -> Option<
    StreamDescriptorView,
>
    decreases streams.len(),
{
    if streams.len() == 0 {
        None
    } else if streams.first().name == name {
        Some(streams.first())
    } else {
        first_stream_named(streams.drop_first(), name)
    }
}

impl ConnectorDescriptor {
    /// The stream of that name, if the connector declares one.
    pub fn stream(&self, name: &str) -> (found: Option<&StreamDescriptor>)
        ensures
            match found {
                Some(s) => self@.stream(name@) == Some(s@),
                None => self@.stream(name@) is None,
            },
    {
        let n = self.streams.len();
        let mut i: usize = 0;
        assert(self@.streams.skip(0) =~= self@.streams);
        while i < n
            invariant
                i <= n,
                n == self.streams@.len(),
                first_stream_named(self@.streams, name@) == first_stream_named(
                    self@.streams.skip(i as int),
                    name@,
                ),
            decreases n - i,
        {
            let ghost rest = self@.streams.skip(i as int);
            assert(rest.first() == self.streams@[i as int]@);
            assert(rest.drop_first() =~= self@.streams.skip(i + 1));
            if str_eq(self.streams[i].name.as_str(), name) {
                return Some(&self.streams[i]);
            }
            i += 1;
        }
        None
    }

    /// Tells whether accounts of this source type are devices that push
    /// their data.
    pub fn is_device(&self) -> (device: bool)
        ensures
            device == (self.auth_type == AuthType::Device),
    {
        match self.auth_type {
            AuthType::Device => true,
            _ => false,
        }
    }
}

/// The name of an authentication mode as a person reads it.
pub open spec fn auth_type_title(auth_type: AuthType) -> Seq<char> {
    match auth_type {
        AuthType::OAuth2 => "OAuth2"@,
        AuthType::Device => "Device"@,
        AuthType::ApiKey => "API Key"@,
        AuthType::NoAuth => "None"@,
    }
}

/// The name of an authentication mode as a catalog entry carries it.
pub open spec fn auth_type_tag(auth_type: AuthType) -> Seq<char> {
    match auth_type {
        AuthType::OAuth2 => "oauth2"@,
        AuthType::Device => "device"@,
        AuthType::ApiKey => "apikey"@,
        AuthType::NoAuth => "none"@,
    }
}

impl AuthType {
    /// The name of the mode as a person reads it: `OAuth2`, `Device`,
    /// `API Key` or `None`.
    pub fn title(&self) -> (text: String)
        ensures
            text@ == auth_type_title(*self),
    {
        match self {
            AuthType::OAuth2 => "OAuth2".to_string(),
            AuthType::Device => "Device".to_string(),
            AuthType::ApiKey => "API Key".to_string(),
            AuthType::NoAuth => "None".to_string(),
        }
    }

    /// The name of the mode in lower case, without spaces: `oauth2`,
    /// `device`, `apikey` or `none`.
    pub fn tag(&self) -> (text: String)
        ensures
            text@ == auth_type_tag(*self),
    {
        match self {
            AuthType::OAuth2 => "oauth2".to_string(),
            AuthType::Device => "device".to_string(),
            AuthType::ApiKey => "apikey".to_string(),
            AuthType::NoAuth => "none".to_string(),
        }
    }
}

/// A source type as a catalog lists it.
#[derive(Clone, Debug, PartialEq, Eq)]
pub struct CatalogSource {
    pub name: String,
    pub display_name: String,
    pub description: String,
    pub auth_type: String,
    pub stream_count: usize,
    pub icon: Option<String>,
}

/// The model of a [`CatalogSource`].
pub struct CatalogSourceView {
    pub name: Seq<char>,
    pub display_name: Seq<char>,
    pub description: Seq<char>,
    pub auth_type: Seq<char>,
    pub stream_count: usize,
    pub icon: Option<Seq<char>>,
}

impl View for CatalogSource {
    type V = CatalogSourceView;

    open spec fn view(&self) -> CatalogSourceView {
        CatalogSourceView {
            name: self.name@,
            display_name: self.display_name@,
            description: self.description@,
            auth_type: self.auth_type@,
            stream_count: self.stream_count,
            icon: opt_chars(self.icon),
        }
    }
}

/// The catalog entry that stands for a descriptor.
pub open spec fn catalog_entry(d: ConnectorDescriptorView) -> CatalogSourceView {
    CatalogSourceView {
        name: d.name,
        display_name: d.display_name,
        description: d.description,
        auth_type: auth_type_tag(d.auth_type),
        stream_count: d.streams.len() as usize,
        icon: d.icon,
    }
}

impl CatalogSource {
    /// The catalog entry of a descriptor: its names and icon, the tag of its
    /// authentication mode, and the number of its streams.
    pub fn of(descriptor: &ConnectorDescriptor) -> (entry: CatalogSource)
        ensures
            entry@ == catalog_entry(descriptor@),
    {
        CatalogSource {
            name: descriptor.name.clone(),
            display_name: descriptor.display_name.clone(),
            description: descriptor.description.clone(),
            auth_type: descriptor.auth_type.tag(),
            stream_count: descriptor.streams.len(),
            icon: clone_opt_string(&descriptor.icon),
        }
    }
}

/// The models of a sequence of descriptors.
pub open spec fn descriptor_views(connectors: Seq<ConnectorDescriptor>) -> Seq<ConnectorDescriptorView> {
    connectors.map_values(|c: ConnectorDescriptor| c@)
}

/// The models of a sequence of catalog entries.
pub open spec fn catalog_views(entries: Seq<CatalogSource>) -> Seq<CatalogSourceView> {
    entries.map_values(|e: CatalogSource| e@)
}

/// No two descriptors share a name.
pub open spec fn distinct_names(connectors: Seq<ConnectorDescriptorView>) -> bool {
    forall|i: int, j: int|
        0 <= i < connectors.len() && 0 <= j < connectors.len() && i != j ==> (
        #[trigger] connectors[i]).name != (#[trigger] connectors[j]).name
}

/// Tells whether some descriptor of `connectors` has the given name.
pub open spec fn has_connector(connectors: Seq<ConnectorDescriptorView>, name: Seq<char>) -> bool {
    exists|i: int| 0 <= i < connectors.len() && (#[trigger] connectors[i]).name == name
}

/// The descriptor of the given name, where `connectors` holds one.
pub open spec fn connector_named(connectors: Seq<ConnectorDescriptorView>, name: Seq<char>) -> ConnectorDescriptorView {
    connectors[choose|i: int| 0 <= i < connectors.len() && (#[trigger] connectors[i]).name == name]
}

/// A descriptor was refused: the registry has one of that name already.
#[derive(Clone, Copy, Debug, PartialEq, Eq, Structural)]
pub struct DuplicateConnector;

/// The known source types, in the order of their registration.
pub struct Registry {
    connectors: Vec<ConnectorDescriptor>,
}

impl View for Registry {
    type V = Seq<ConnectorDescriptorView>;

    closed spec fn view(&self) -> Seq<ConnectorDescriptorView> {
        descriptor_views(self.connectors@)
    }
}

impl Registry {
    /// The invariant of the registry: each source type is described once.
    pub open spec fn wf(&self) -> bool {
        distinct_names(self@)
    }

    /// A registry that knows no source type.
    pub fn new() -> (registry: Registry)
        ensures
            registry.wf(),
            registry@ == Seq::<ConnectorDescriptorView>::empty(),
    {
        let registry = Registry { connectors: Vec::new() };
        assert(registry@ =~= Seq::<ConnectorDescriptorView>::empty());
        registry
    }

    fn position(&self, source_type: &str) -> (found: Option<usize>)
        ensures
            match found {
                Some(at) => at < self@.len() && self@[at as int].name == source_type@,
                None => !has_connector(self@, source_type@),
            },
    {
        let n = self.connectors.len();
        let mut i: usize = 0;
        while i < n
            invariant
                i <= n,
                n == self.connectors@.len(),
                forall|k: int| 0 <= k < i ==> (#[trigger] self@[k]).name != source_type@,
            decreases n - i,
        {
            if str_eq(self.connectors[i].name.as_str(), source_type) {
                return Some(i);
            }
            i += 1;
        }
        None
    }

    /// Adds a descriptor at the end, unless its name is taken: then the
    /// registry stays as it is.
    pub fn register(&mut self, descriptor: ConnectorDescriptor) -> (added: Result<(), DuplicateConnector>)
        requires
            old(self).wf(),
        ensures
            final(self).wf(),
            match added {
                Ok(()) => !has_connector(old(self)@, descriptor@.name) && final(self)@ == old(self)@.push(
                    descriptor@,
                ),
                Err(_) => has_connector(old(self)@, descriptor@.name) && final(self)@ == old(self)@,
            },
    {
        match self.position(descriptor.name.as_str()) {
            Some(_) => Err(DuplicateConnector),
            None => {
                self.connectors.push(descriptor);
                proof {
                    assert(self@ =~= old(self)@.push(descriptor@));
                    assert forall|i: int, j: int|
                        0 <= i < self@.len() && 0 <= j < self@.len() && i != j implies (#[trigger] self@[i]).name
                        != (#[trigger] self@[j]).name by {
                        if i < old(self)@.len() {
                            assert(self@[i] == old(self)@[i]);
                        }
                        if j < old(self)@.len() {
                            assert(self@[j] == old(self)@[j]);
                        }
                    }
                }
                Ok(())
            },
        }
    }

    /// The descriptor of a source type, or none where the type is unknown.
    pub fn describe(&self, source_type: &str) -> (found: Option<&ConnectorDescriptor>)
        requires
            self.wf(),
        ensures
            match found {
                Some(d) => has_connector(self@, source_type@) && d@ == connector_named(self@, source_type@),
                None => !has_connector(self@, source_type@),
            },
    {
        match self.position(source_type) {
            Some(at) => {
                assert(self@[at as int] == self.connectors@[at as int]@);
                Some(&self.connectors[at])
            },
            None => None,
        }
    }

    /// All descriptors, in the order of their registration.
    pub fn list(&self) -> (all: &Vec<ConnectorDescriptor>)
        ensures
            descriptor_views(all@) == self@,
    {
        &self.connectors
    }

    /// The catalog: one entry for each descriptor, in the same order.
    pub fn catalog(&self) -> (entries: Vec<CatalogSource>)
        ensures
            catalog_views(entries@) == self@.map_values(|d: ConnectorDescriptorView| catalog_entry(d)),
    {
        let mut entries: Vec<CatalogSource> = Vec::new();
        let n = self.connectors.len();
        let mut i: usize = 0;
        while i < n
            invariant
                i <= n,
                n == self.connectors@.len(),
                entries@.len() == i,
                forall|k: int| 0 <= k < i ==> (#[trigger] entries@[k])@ == catalog_entry(self@[k]),
            decreases n - i,
        {
            entries.push(CatalogSource::of(&self.connectors[i]));
            i += 1;
        }
        assert(catalog_views(entries@) =~= self@.map_values(|d: ConnectorDescriptorView| catalog_entry(d)));
        entries
    }
}

} // verus!
