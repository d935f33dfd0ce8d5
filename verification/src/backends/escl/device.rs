//! Discovered eSCL devices: what a resolved mDNS service says of a scanner,
//! the identifier derived from it, and the URL that its resources hang off.

use crate::models::{in_namespace, Backend, PapyrError, PapyrErrorView, ScannerInfo};
use crate::seqs::{distinct_by, has_key, keys_differ, lemma_distinct_by, lemma_distinct_by_push};
use crate::text::{
    append_decimal, contains_char, decimal, replace_char, replaced, same_text, trim_end_char,
    trimmed_end,
};
use vstd::prelude::*;

verus! {

/// How long one round of discovery lasts over all service types, in
/// seconds.
pub const DISCOVERY_WINDOW_SECS: u64 = 10;

/// The mDNS service types under which eSCL scanners announce themselves.
#[derive(Debug, Clone, Copy, PartialEq, Eq, Structural)]
pub enum ServiceKind {
    /// `_uscan._tcp.local.`: plain HTTP.
    Uscan,
    /// `_uscans._tcp.local.`: HTTPS.
    Uscans,
    /// `_airscan._tcp.local.`: the Apple variant, HTTPS.
    Airscan,
}

impl ServiceKind {
    pub open spec fn spec_service_type(&self) -> Seq<char> {
        match self {
            ServiceKind::Uscan => "_uscan._tcp.local."@,
            ServiceKind::Uscans => "_uscans._tcp.local."@,
            ServiceKind::Airscan => "_airscan._tcp.local."@,
        }
    }

    pub open spec fn spec_implies_https(&self) -> bool {
        *self != ServiceKind::Uscan
    }

    /// The service type to browse for.
    pub fn service_type(&self) -> (name: &'static str)
        ensures
            name@ == self.spec_service_type(),
    {
        match self {
            ServiceKind::Uscan => "_uscan._tcp.local.",
            ServiceKind::Uscans => "_uscans._tcp.local.",
            ServiceKind::Airscan => "_airscan._tcp.local.",
        }
    }

    /// Whether a scanner found under this service type is spoken to over
    /// HTTPS.
    #[verifier::when_used_as_spec(spec_implies_https)]
    pub fn implies_https(&self) -> (secure: bool)
        ensures
            secure == self.spec_implies_https(),
    {
        match self {
            ServiceKind::Uscan => false,
            ServiceKind::Uscans => true,
            ServiceKind::Airscan => true,
        }
    }
}

/// The kind of the service type with a name.
pub open spec fn kind_of_type(name: Seq<char>) -> Option<ServiceKind> {
    if name == "_uscan._tcp.local."@ {
        Some(ServiceKind::Uscan)
    } else if name == "_uscans._tcp.local."@ {
        Some(ServiceKind::Uscans)
    } else if name == "_airscan._tcp.local."@ {
        Some(ServiceKind::Airscan)
    } else {
        None
    }
}

/// Every kind is known again by the name of its service type.
pub proof fn lemma_service_type_round_trip(kind: ServiceKind)
    ensures
        kind_of_type(kind.spec_service_type()) == Some(kind),
{
    reveal_strlit("_uscan._tcp.local.");
    reveal_strlit("_uscans._tcp.local.");
    reveal_strlit("_airscan._tcp.local.");
    assert("_uscan._tcp.local."@.len() == 18);
    assert("_uscans._tcp.local."@.len() == 19);
    assert("_airscan._tcp.local."@.len() == 20);
}

/// Tells the kind of a service type by its name.
pub fn service_kind(service_type: &str) -> (kind: Option<ServiceKind>)
    ensures
        kind == kind_of_type(service_type@),
{
    if same_text(service_type, "_uscan._tcp.local.") {
        Some(ServiceKind::Uscan)
    } else if same_text(service_type, "_uscans._tcp.local.") {
        Some(ServiceKind::Uscans)
    } else if same_text(service_type, "_airscan._tcp.local.") {
        Some(ServiceKind::Airscan)
    } else {
        None
    }
}

/// One resolved service, as plain values: its full name, its addresses as
/// text in the order in which they are to be tried, its port, and the
/// service type under which it was found.
#[derive(Debug)]
pub struct ResolvedService {
    pub fullname: String,
    pub addresses: Vec<String>,
    pub port: u16,
    pub kind: ServiceKind,
}

/// A scanner to talk to.
#[derive(Debug)]
pub struct EsclDevice {
    pub id: String,
    pub name: String,
    pub host: String,
    pub port: u16,
    pub use_https: bool,
}

pub struct EsclDeviceView {
    pub id: Seq<char>,
    pub name: Seq<char>,
    pub host: Seq<char>,
    pub port: u16,
    pub use_https: bool,
}

impl View for EsclDevice {
    type V = EsclDeviceView;

    open spec fn view(&self) -> EsclDeviceView {
        EsclDeviceView {
            id: self.id@,
            name: self.name@,
            host: self.host@,
            port: self.port,
            use_https: self.use_https,
        }
    }
}

impl Clone for EsclDevice {
    fn clone(&self) -> (r: Self)
        ensures
            r == *self,
    {
        EsclDevice {
            id: self.id.clone(),
            name: self.name.clone(),
            host: self.host.clone(),
            port: self.port,
            use_https: self.use_https,
        }
    }
}

/// A host as it stands in a URL: an IPv6 address, known by its colons, goes
/// between square brackets unless it already does.
pub open spec fn url_host(host: Seq<char>) -> Seq<char> {
    if host.contains(':') && host[0] != '[' {
        seq!['['] + host + seq![']']
    } else {
        host
    }
}

/// The port as it stands in a URL: nothing for 80 and 443, else a colon and
/// the number.
pub open spec fn url_port(port: u16) -> Seq<char> {
    if port == 80 || port == 443 {
        Seq::empty()
    } else {
        seq![':'] + decimal(port as nat)
    }
}

pub open spec fn url_scheme(use_https: bool) -> Seq<char> {
    if use_https {
        "https"@
    } else {
        "http"@
    }
}

impl EsclDeviceView {
    /// `{http|https}://{host[:port]}/eSCL`.
    pub open spec fn base_url(self) -> Seq<char> {
        url_scheme(self.use_https) + "://"@ + url_host(self.host) + url_port(self.port) + "/eSCL"@
    }
}

/// The name under which a service is shown: its full name without the dots
/// at its end.
pub open spec fn display_name(fullname: Seq<char>) -> Seq<char> {
    trimmed_end(fullname, '.')
}

/// The identifier of the device with the given name: `escl_`, then the name
/// with an underscore for every dot.
pub open spec fn device_id(name: Seq<char>) -> Seq<char> {
    "escl_"@ + replaced(name, '.', '_')
}

/// The device that a resolved service stands for: none where the service
/// has no address, else one at its first address.
pub open spec fn device_of(service: ResolvedService) -> Option<EsclDeviceView> {
    if service.addresses@.len() == 0 {
        None
    } else {
        Some(
            EsclDeviceView {
                id: device_id(display_name(service.fullname@)),
                name: display_name(service.fullname@),
                host: service.addresses@[0]@,
                port: service.port,
                use_https: service.kind.spec_implies_https(),
            },
        )
    }
}

impl EsclDevice {
    /// The URL that all resources of the scanner hang off.
    pub fn base_url(&self) -> (url: String)
        ensures
            url@ == self@.base_url(),
    {
        let mut url = String::from_str(if self.use_https { "https" } else { "http" });
        url.append("://");
        let host = self.host.as_str();
        let bracket = contains_char(host, ':') && host.get_char(0) != '[';
        if bracket {
            proof {
                reveal_strlit("[");
                reveal_strlit("]");
                assert("["@ =~= seq!['[']);
                assert("]"@ =~= seq![']']);
            }
            url.append("[");
            url.append(host);
            url.append("]");
            assert(url@ =~= url_scheme(self.use_https) + "://"@ + url_host(self.host@));
        } else {
            url.append(host);
        }
        if self.port != 80 && self.port != 443 {
            proof {
                reveal_strlit(":");
                assert(":"@ =~= seq![':']);
            }
            url.append(":");
            append_decimal(&mut url, self.port as u64);
            assert(url@ =~= url_scheme(self.use_https) + "://"@ + url_host(self.host@) + url_port(
                self.port,
            ));
        } else {
            assert(url@ =~= url_scheme(self.use_https) + "://"@ + url_host(self.host@) + url_port(
                self.port,
            ));
        }
        url.append("/eSCL");
        url
    }

    /// The descriptor under which the device is listed.
    pub fn info(&self) -> (info: ScannerInfo)
        ensures
            info.id@ == self.id@,
            info.name@ == self.name@,
            info.backend == Backend::Escl,
    {
        ScannerInfo { id: self.id.clone(), name: self.name.clone(), backend: Backend::Escl }
    }

    /// The device that a resolved service stands for, if it has an address.
    pub fn from_service(service: &ResolvedService) -> (device: Option<EsclDevice>)
        ensures
            match device {
                Some(d) => device_of(*service) == Some(d@),
                None => device_of(*service) is None,
            },
    {
        if service.addresses.len() == 0 {
            return None;
        }
        let name = trim_end_char(service.fullname.as_str(), '.');
        let mut id = String::from_str("escl_");
        let tail = replace_char(name.as_str(), '.', '_');
        id.append(tail.as_str());
        Some(
            EsclDevice {
                id,
                name,
                host: service.addresses[0].clone(),
                port: service.port,
                use_https: service.kind.implies_https(),
            },
        )
    }
}

/// The key by which devices are told apart.
pub open spec fn device_key() -> spec_fn(EsclDeviceView) -> Seq<char> {
    |d: EsclDeviceView| d.id
}

/// The devices of the services that have an address, in the order of the
/// services.
pub open spec fn candidates(services: Seq<ResolvedService>) -> Seq<EsclDeviceView>
    decreases services.len(),
{
    if services.len() == 0 {
        Seq::empty()
    } else {
        match device_of(services.last()) {
            Some(device) => candidates(services.drop_last()).push(device),
            None => candidates(services.drop_last()),
        }
    }
}

/// What a round of discovery found: one device for each identifier, the one
/// that was resolved first.
pub open spec fn discovered(services: Seq<ResolvedService>) -> Seq<EsclDeviceView> {
    distinct_by(candidates(services), device_key())
}

pub open spec fn device_views(devices: Seq<EsclDevice>) -> Seq<EsclDeviceView> {
    devices.map_values(|d: EsclDevice| d@)
}

/// The place of the device with the given identifier, if one is held.
fn position_of(devices: &Vec<EsclDevice>, device_id: &str) -> (place: Option<usize>)
    ensures
        match place {
            Some(i) => i < devices@.len() && devices@[i as int].id@ == device_id@,
            None => !has_key(device_views(devices@), device_key(), device_id@),
        },
{
    let mut i: usize = 0;
    while i < devices.len()
        invariant
            i <= devices@.len(),
            forall|k: int| 0 <= k < i ==> devices@[k].id@ != device_id@,
        decreases devices@.len() - i,
    {
        if same_text(devices[i].id.as_str(), device_id) {
            return Some(i);
        }
        i = i + 1;
    }
    proof {
        let views = device_views(devices@);
        if has_key(views, device_key(), device_id@) {
            let k = choose|k: int| 0 <= k < views.len() && device_key()(#[trigger] views[k]) == device_id@;
            assert(devices@[k].id@ == device_id@);
        }
    }
    None
}

/// The devices that a backend knows of, one for each identifier.
pub struct DeviceCache {
    devices: Vec<EsclDevice>,
}

impl View for DeviceCache {
    type V = Seq<EsclDeviceView>;

    closed spec fn view(&self) -> Seq<EsclDeviceView> {
        device_views(self.devices@)
    }
}

impl DeviceCache {
    #[verifier::type_invariant]
    spec fn ids_differ(&self) -> bool {
        keys_differ(device_views(self.devices@), device_key())
    }

    /// A cache that holds nothing.
    pub fn new() -> (cache: DeviceCache)
        ensures
            cache@ == Seq::<EsclDeviceView>::empty(),
    {
        let cache = DeviceCache { devices: Vec::new() };
        assert(cache@ =~= Seq::<EsclDeviceView>::empty());
        cache
    }

    /// Replaces what the cache holds by what a round of discovery resolved,
    /// and lists it: a service without an address gives no device, and of
    /// several services with one identifier the first stays.
    pub fn refresh(&mut self, services: &Vec<ResolvedService>) -> (list: Vec<ScannerInfo>)
        ensures
            final(self)@ == discovered(services@),
            keys_differ(final(self)@, device_key()),
            list@.len() == final(self)@.len(),
            forall|i: int|
                0 <= i < list@.len() ==> {
                    &&& (#[trigger] list@[i]).id@ == final(self)@[i].id
                    &&& list@[i].name@ == final(self)@[i].name
                    &&& list@[i].backend == Backend::Escl
                },
    {
        let mut devices: Vec<EsclDevice> = Vec::new();
        let mut i: usize = 0;
        assert(services@.take(0) =~= Seq::<ResolvedService>::empty());
        assert(device_views(devices@) =~= Seq::<EsclDeviceView>::empty());
        while i < services.len()
            invariant
                i <= services@.len(),
                device_views(devices@) == discovered(services@.take(i as int)),
            decreases services@.len() - i,
        {
            proof {
                let next = services@.take(i + 1);
                assert(next.drop_last() =~= services@.take(i as int));
                assert(next.last() == services@[i as int]);
                match device_of(services@[i as int]) {
                    Some(d) => {
                        lemma_distinct_by_push(
                            candidates(services@.take(i as int)),
                            device_key(),
                            d,
                        );
                    },
                    None => {},
                }
            }
            match EsclDevice::from_service(&services[i]) {
                Some(device) => {
                    match position_of(&devices, device.id.as_str()) {
                        Some(held) => {
                            assert(device_key()(device_views(devices@)[held as int]) == device.id@);
                        },
                        None => {
                            let ghost before = devices@;
                            devices.push(device);
                            assert(device_views(devices@) =~= device_views(before).push(device@));
                        },
                    }
                },
                None => {},
            }
            i = i + 1;
        }
        assert(services@.take(i as int) =~= services@);
        proof {
            lemma_distinct_by(candidates(services@), device_key());
        }
        self.devices = devices;
        self.list()
    }

    /// Lists the devices that the cache holds, in its order.
    pub fn list(&self) -> (list: Vec<ScannerInfo>)
        ensures
            list@.len() == self@.len(),
            forall|i: int|
                0 <= i < list@.len() ==> {
                    &&& (#[trigger] list@[i]).id@ == self@[i].id
                    &&& list@[i].name@ == self@[i].name
                    &&& list@[i].backend == Backend::Escl
                },
    {
        let mut list: Vec<ScannerInfo> = Vec::new();
        let mut i: usize = 0;
        while i < self.devices.len()
            invariant
                i <= self.devices@.len(),
                list@.len() == i,
                forall|k: int|
                    0 <= k < i ==> {
                        &&& (#[trigger] list@[k]).id@ == self.devices@[k].id@
                        &&& list@[k].name@ == self.devices@[k].name@
                        &&& list@[k].backend == Backend::Escl
                    },
            decreases self.devices@.len() - i,
        {
            list.push(self.devices[i].info());
            i = i + 1;
        }
        list
    }

    /// Looks a device up by its identifier.
    pub fn find(&self, device_id: &str) -> (found: Result<EsclDevice, PapyrError>)
        ensures
            match found {
                Ok(device) => self@.contains(device@) && device.id@ == device_id@,
                Err(e) => !has_key(self@, device_key(), device_id@) && e@
                    == PapyrErrorView::NotFound(device_id@),
            },
    {
        match position_of(&self.devices, device_id) {
            Some(i) => {
                let device = self.devices[i].clone();
                assert(self@[i as int] == device@);
                Ok(device)
            },
            None => Err(PapyrError::NotFound(String::from_str(device_id))),
        }
    }
}

/// Every identifier of a device lies in the namespace of eSCL.
pub proof fn lemma_device_id_in_namespace(name: Seq<char>)
    ensures
        in_namespace(device_id(name), Backend::Escl),
{
    let id = device_id(name);
    assert(id.subrange(0, "escl_"@.len() as int) =~= "escl_"@);
}

} // verus!
