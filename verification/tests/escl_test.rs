use papyr_core::backends::escl::capabilities::{
    capabilities_from_document, capabilities_from_reply, color_mode_name, parse_capabilities,
    parse_color_mode, AdfCaps, DiscreteResolution, InputCaps, PlatenCaps, ScannerCapabilities,
    SettingProfile,
};
use papyr_core::backends::escl::document::{
    child, document_from_events, read_document, read_events, Dimension, Place, Unit, XmlEvent,
};
use papyr_core::backends::escl::device::{
    service_kind, DeviceCache, EsclDevice, ResolvedService, ServiceKind,
};
use papyr_core::backends::escl::session::{
    EsclOutcome, EsclReply, EsclRequest, EsclSession, EsclState,
};
use papyr_core::backends::escl::settings::{create_scan_settings_xml, input_source};
use papyr_core::backends::escl::status::{
    append_status_line, append_status_line_of, status_is_success,
};
use papyr_core::backends::escl::capabilities::{capabilities_url, CAPABILITY_TIMEOUT_SECS};
use papyr_core::backends::escl::device::DISCOVERY_WINDOW_SECS;
use papyr_core::backends::escl::session::{DOCUMENT_TIMEOUT_SECS, JOB_CONTENT_TYPE};
use papyr_core::models::{
    Backend, ColorMode, PageSize, PapyrError, ScanConfig, ScanEvent, ScanSource,
};

fn config(source: ScanSource, dpi: u32, color_mode: ColorMode) -> ScanConfig {
    ScanConfig {
        source,
        duplex: false,
        dpi,
        color_mode,
        page_size: PageSize { width_mm: 216, height_mm: 279 },
        area: None,
        brightness: None,
        contrast: None,
        max_pages: None,
    }
}

fn device() -> EsclDevice {
    EsclDevice {
        id: "escl_h".to_string(),
        name: "h".to_string(),
        host: "h".to_string(),
        port: 80,
        use_https: false,
    }
}

fn response(status: u16, location: Option<&str>, body: &[u8]) -> EsclReply {
    EsclReply::Response {
        status,
        location: location.map(|l| l.to_string()),
        body: body.to_vec(),
    }
}

/// Drives a session against a scripted scanner, and records the events, the
/// error if one ends the stream, and every request made.
fn drive(session: &mut EsclSession, mut script: Vec<EsclReply>) -> (Vec<ScanEvent>, Option<PapyrError>, Vec<String>) {
    script.reverse();
    let mut events = Vec::new();
    let mut requests = Vec::new();
    loop {
        let reply = match session.next_request() {
            EsclRequest::CreateJob { url, body: _ } => {
                requests.push(format!("POST {}", url));
                script.pop().expect("the script has a reply to the job request")
            }
            EsclRequest::NextDocument { url } => {
                requests.push(format!("GET {}", url));
                script.pop().expect("the script has a reply to the document request")
            }
            EsclRequest::Nothing => EsclReply::Nothing,
        };
        let EsclOutcome { event, delete } = session.advance(reply);
        if let Some(url) = delete {
            requests.push(format!("DELETE {}", url));
        }
        match event {
            Ok(Some(e)) => events.push(e),
            Ok(None) => return (events, None, requests),
            Err(e) => return (events, Some(e), requests),
        }
    }
}

fn kinds(events: &[ScanEvent]) -> Vec<String> {
    events
        .iter()
        .map(|e| match e {
            ScanEvent::PageStarted(i) => format!("PageStarted({})", i),
            ScanEvent::PageData(bytes) => format!("PageData({:?})", bytes),
            ScanEvent::PageComplete(meta) => format!("PageComplete({})", meta.index),
            ScanEvent::JobComplete => "JobComplete".to_string(),
        })
        .collect()
}

#[test]
fn single_page_flatbed_scan() {
    let mut session = EsclSession::new(&device(), &config(ScanSource::Flatbed, 150, ColorMode::Color));
    let script = vec![
        response(201, Some("http://h/eSCL/ScanJobs/7"), b""),
        response(200, None, &[0xFF, 0xD8, 0xFF, 0xE0, 0x00]),
        response(404, None, b""),
    ];
    let (events, error, requests) = drive(&mut session, script);
    assert!(error.is_none());
    assert_eq!(
        kinds(&events),
        vec![
            "PageStarted(0)".to_string(),
            "PageData([255, 216, 255, 224, 0])".to_string(),
            "JobComplete".to_string(),
        ]
    );
    assert_eq!(
        requests,
        vec![
            "POST http://h/eSCL/ScanJobs".to_string(),
            "GET http://h/eSCL/ScanJobs/7/NextDocument".to_string(),
            "GET http://h/eSCL/ScanJobs/7/NextDocument".to_string(),
            "DELETE http://h/eSCL/ScanJobs/7".to_string(),
        ]
    );
    assert_eq!(session.state(), EsclState::Completed);
    // The stream has ended: every further pull says so, and asks for nothing.
    for _ in 0..3 {
        assert!(matches!(session.next_request(), EsclRequest::Nothing));
        let outcome = session.advance(EsclReply::Nothing);
        assert!(matches!(outcome.event, Ok(None)));
        assert!(outcome.delete.is_none());
    }
}

#[test]
fn two_pages_from_the_feeder() {
    let mut session = EsclSession::new(&device(), &config(ScanSource::Adf, 300, ColorMode::Gray));
    let script = vec![
        response(201, Some("http://h/eSCL/ScanJobs/9"), b""),
        response(200, None, b"one"),
        response(200, None, b"two"),
        response(404, None, b""),
    ];
    let (events, error, requests) = drive(&mut session, script);
    assert!(error.is_none());
    assert_eq!(
        kinds(&events),
        vec![
            "PageStarted(0)".to_string(),
            format!("PageData({:?})", b"one".to_vec()),
            "PageStarted(1)".to_string(),
            format!("PageData({:?})", b"two".to_vec()),
            "JobComplete".to_string(),
        ]
    );
    assert_eq!(requests.iter().filter(|r| r.starts_with("DELETE")).count(), 1);
    assert_eq!(requests.last().unwrap(), "DELETE http://h/eSCL/ScanJobs/9");
    assert_eq!(session.pages_started(), 2);
}

#[test]
fn job_creation_fails() {
    let mut session = EsclSession::new(&device(), &config(ScanSource::Flatbed, 150, ColorMode::Color));
    let (events, error, requests) = drive(&mut session, vec![response(503, None, b"")]);
    assert!(events.is_empty());
    match error {
        Some(PapyrError::Backend(text)) => assert_eq!(text, "Scan job creation failed: HTTP 503"),
        other => panic!("expected a backend error, got {:?}", other),
    }
    assert_eq!(requests, vec!["POST http://h/eSCL/ScanJobs".to_string()]);
    assert_eq!(session.state(), EsclState::Completed);
    assert!(session.close().is_none());
    assert!(matches!(session.advance(EsclReply::Nothing).event, Ok(None)));
}

#[test]
fn job_without_location_fails() {
    let mut session = EsclSession::new(&device(), &config(ScanSource::Flatbed, 150, ColorMode::Color));
    let (events, error, _) = drive(&mut session, vec![response(201, None, b"")]);
    assert!(events.is_empty());
    match error {
        Some(PapyrError::Backend(text)) => assert_eq!(text, "No Location header in scan response"),
        other => panic!("expected a backend error, got {:?}", other),
    }
}

#[test]
fn transport_failures_end_the_session() {
    let mut session = EsclSession::new(&device(), &config(ScanSource::Flatbed, 150, ColorMode::Color));
    let (_, error, _) = drive(&mut session, vec![EsclReply::Failed("timed out".to_string())]);
    match error {
        Some(PapyrError::Backend(text)) => assert_eq!(text, "Failed to start scan: timed out"),
        other => panic!("expected a backend error, got {:?}", other),
    }

    let mut session = EsclSession::new(&device(), &config(ScanSource::Flatbed, 150, ColorMode::Color));
    let script = vec![
        response(201, Some("http://h/eSCL/ScanJobs/1"), b""),
        EsclReply::Failed("connection reset".to_string()),
    ];
    let (events, error, requests) = drive(&mut session, script);
    assert_eq!(kinds(&events), vec!["PageStarted(0)".to_string()]);
    match error {
        Some(PapyrError::Backend(text)) => assert_eq!(text, "Failed to download: connection reset"),
        other => panic!("expected a backend error, got {:?}", other),
    }
    assert!(requests.iter().all(|r| !r.starts_with("DELETE")));
    assert_eq!(session.state(), EsclState::Completed);
}

#[test]
fn a_failed_download_ends_the_session() {
    let mut session = EsclSession::new(&device(), &config(ScanSource::Flatbed, 150, ColorMode::Color));
    let script = vec![
        response(201, Some("http://h/eSCL/ScanJobs/1"), b""),
        response(200, None, b"one"),
        response(500, None, b""),
    ];
    let (events, error, _) = drive(&mut session, script);
    assert_eq!(events.len(), 2);
    match error {
        Some(PapyrError::Backend(text)) => assert_eq!(text, "Download failed: 500 Internal Server Error"),
        other => panic!("expected a backend error, got {:?}", other),
    }
    assert!(matches!(session.advance(EsclReply::Nothing).event, Ok(None)));
}

#[test]
fn a_missing_reply_ends_the_session() {
    let mut session = EsclSession::new(&device(), &config(ScanSource::Flatbed, 150, ColorMode::Color));
    let outcome = session.advance(EsclReply::Nothing);
    match outcome.event {
        Err(PapyrError::Other(text)) => assert_eq!(text, "no reply to the request that was due"),
        other => panic!("expected an error, got {:?}", other),
    }
    assert_eq!(session.state(), EsclState::Completed);
}

#[test]
fn closing_during_a_job_deletes_it_once() {
    let mut session = EsclSession::new(&device(), &config(ScanSource::Adf, 300, ColorMode::Gray));
    assert!(session.close().is_none());
    let mut session = EsclSession::new(&device(), &config(ScanSource::Adf, 300, ColorMode::Gray));
    let outcome = session.advance(response(201, Some("http://h/eSCL/ScanJobs/3"), b""));
    assert!(matches!(outcome.event, Ok(Some(ScanEvent::PageStarted(0)))));
    assert_eq!(session.state(), EsclState::JobCreated);
    assert_eq!(session.job_url(), "http://h/eSCL/ScanJobs/3");
    assert_eq!(session.close(), Some("http://h/eSCL/ScanJobs/3".to_string()));
    assert_eq!(session.close(), None);
    assert_eq!(session.state(), EsclState::Completed);
    let outcome = session.advance(response(200, None, b"late"));
    assert!(matches!(outcome.event, Ok(None)));
    assert!(outcome.delete.is_none());
}

#[test]
fn the_page_cap_ends_the_job() {
    let mut capped = config(ScanSource::Adf, 300, ColorMode::Gray);
    capped.max_pages = Some(1);
    let mut session = EsclSession::new(&device(), &capped);
    let script = vec![
        response(201, Some("http://h/eSCL/ScanJobs/4"), b""),
        response(200, None, b"one"),
    ];
    let (events, error, requests) = drive(&mut session, script);
    assert!(error.is_none());
    assert_eq!(
        kinds(&events),
        vec![
            "PageStarted(0)".to_string(),
            format!("PageData({:?})", b"one".to_vec()),
            "JobComplete".to_string(),
        ]
    );
    assert_eq!(
        requests,
        vec![
            "POST http://h/eSCL/ScanJobs".to_string(),
            "GET http://h/eSCL/ScanJobs/4/NextDocument".to_string(),
            "DELETE http://h/eSCL/ScanJobs/4".to_string(),
        ]
    );
}

#[test]
fn the_job_request_carries_the_settings() {
    let cfg = config(ScanSource::Flatbed, 150, ColorMode::Color);
    let session = EsclSession::new(&device(), &cfg);
    match session.next_request() {
        EsclRequest::CreateJob { url, body } => {
            assert_eq!(url, "http://h/eSCL/ScanJobs");
            assert_eq!(body, create_scan_settings_xml(&cfg));
        }
        other => panic!("expected the job request, got {:?}", other),
    }
}

#[test]
fn scan_settings_document() {
    let xml = create_scan_settings_xml(&config(ScanSource::Flatbed, 150, ColorMode::Color));
    let expected = "<?xml version=\"1.0\" encoding=\"UTF-8\"?>
<scan:ScanSettings xmlns:scan=\"http://schemas.hp.com/imaging/escl/2011/05/03\" xmlns:pwg=\"http://www.pwg.org/schemas/2010/12/sm\">
    <pwg:Version>2.6</pwg:Version>
    <pwg:ScanRegions>
        <pwg:ScanRegion>
            <pwg:Height>1674</pwg:Height>
            <pwg:Width>1296</pwg:Width>
            <pwg:XOffset>0</pwg:XOffset>
            <pwg:YOffset>0</pwg:YOffset>
        </pwg:ScanRegion>
    </pwg:ScanRegions>
    <scan:DocumentFormatExt>image/jpeg</scan:DocumentFormatExt>
    <pwg:InputSource>Platen</pwg:InputSource>
    <scan:XResolution>150</scan:XResolution>
    <scan:YResolution>150</scan:YResolution>
    <scan:ColorMode>RGB24</scan:ColorMode>
</scan:ScanSettings>";
    assert_eq!(xml, expected);
}

#[test]
fn scan_settings_for_the_feeder_in_gray() {
    let mut cfg = config(ScanSource::AdfDuplex, 300, ColorMode::Gray);
    cfg.page_size = PageSize { width_mm: 210, height_mm: 297 };
    let xml = create_scan_settings_xml(&cfg);
    assert!(xml.contains("<pwg:Height>3564</pwg:Height>"));
    assert!(xml.contains("<pwg:Width>2520</pwg:Width>"));
    assert!(xml.contains("<pwg:InputSource>Feeder</pwg:InputSource>"));
    assert!(xml.contains("<scan:XResolution>300</scan:XResolution>"));
    assert!(xml.contains("<scan:YResolution>300</scan:YResolution>"));
    assert!(xml.contains("<scan:ColorMode>Grayscale8</scan:ColorMode>"));
}

#[test]
fn scan_settings_do_not_overflow() {
    let mut cfg = config(ScanSource::Flatbed, u32::MAX, ColorMode::Bw);
    cfg.page_size = PageSize { width_mm: u32::MAX, height_mm: 0 };
    let xml = create_scan_settings_xml(&cfg);
    // 4294967295 * 4294967295 / 25
    assert!(xml.contains("<pwg:Width>737869762604784681</pwg:Width>"));
    assert!(xml.contains("<pwg:Height>0</pwg:Height>"));
    assert!(xml.contains("<scan:ColorMode>BlackAndWhite1</scan:ColorMode>"));
}

#[test]
fn input_source_names() {
    assert_eq!(input_source(ScanSource::Flatbed), "Platen");
    assert_eq!(input_source(ScanSource::Adf), "Feeder");
    assert_eq!(input_source(ScanSource::AdfDuplex), "Feeder");
}

#[test]
fn color_mode_names() {
    assert_eq!(parse_color_mode("RGB24"), Some(ColorMode::Color));
    assert_eq!(parse_color_mode("RGB48"), Some(ColorMode::Color));
    assert_eq!(parse_color_mode("Grayscale8"), Some(ColorMode::Gray));
    assert_eq!(parse_color_mode("Grayscale16"), Some(ColorMode::Gray));
    assert_eq!(parse_color_mode("BlackAndWhite1"), Some(ColorMode::Bw));
    assert_eq!(parse_color_mode("rgb24"), None);
    assert_eq!(parse_color_mode(""), None);
    for mode in [ColorMode::Color, ColorMode::Gray, ColorMode::Bw] {
        assert_eq!(parse_color_mode(color_mode_name(mode)), Some(mode));
    }
}

fn profile(modes: &[&str], dpis: &[u32]) -> SettingProfile {
    SettingProfile {
        color_modes: modes.iter().map(|m| m.to_string()).collect(),
        resolutions: dpis
            .iter()
            .map(|d| DiscreteResolution { x_resolution: *d, y_resolution: *d })
            .collect(),
    }
}

fn unit(profiles: Vec<SettingProfile>) -> InputCaps {
    InputCaps { min_width: None, max_width: Some(2550), min_height: None, max_height: Some(3508), profiles }
}

#[test]
fn capability_defaults_for_an_unreadable_document() {
    let caps = capabilities_from_document(None);
    assert_eq!(caps.sources, vec![ScanSource::Flatbed]);
    assert_eq!(caps.dpis, vec![75, 150, 300, 600]);
    assert_eq!(caps.color_modes, vec![ColorMode::Color, ColorMode::Gray, ColorMode::Bw]);
    assert_eq!(
        caps.page_sizes,
        vec![PageSize { width_mm: 216, height_mm: 279 }, PageSize { width_mm: 210, height_mm: 297 }]
    );
    assert!(!caps.supports_duplex);
}

#[test]
fn capability_defaults_for_an_empty_document() {
    let caps = capabilities_from_document(Some(&ScannerCapabilities { platen: None, adf: None }));
    assert_eq!(caps.sources, vec![ScanSource::Flatbed]);
    assert_eq!(caps.dpis, vec![75, 150, 300, 600]);
    assert_eq!(caps.color_modes, vec![ColorMode::Color, ColorMode::Gray, ColorMode::Bw]);
    assert!(!caps.supports_duplex);
    assert!(caps.check_consistent());
}

#[test]
fn capabilities_from_a_full_document() {
    let doc = ScannerCapabilities {
        platen: Some(PlatenCaps {
            input_caps: Some(unit(vec![
                profile(&["RGB24", "Grayscale8", "Sepia"], &[300, 600, 0]),
                profile(&["RGB48"], &[600, 1200]),
            ])),
        }),
        adf: Some(AdfCaps {
            simplex: Some(unit(vec![profile(&["BlackAndWhite1", "Grayscale16"], &[150, 300])])),
            duplex: Some(unit(vec![profile(&[], &[200])])),
        }),
    };
    let caps = capabilities_from_document(Some(&doc));
    assert_eq!(caps.sources, vec![ScanSource::Flatbed, ScanSource::Adf, ScanSource::AdfDuplex]);
    assert_eq!(caps.dpis, vec![300, 600, 1200, 150, 200]);
    assert_eq!(caps.color_modes, vec![ColorMode::Color, ColorMode::Gray, ColorMode::Bw]);
    assert!(caps.supports_duplex);
    assert!(caps.check_consistent());
}

#[test]
fn a_feeder_without_a_second_side_has_no_duplex() {
    let doc = ScannerCapabilities {
        platen: None,
        adf: Some(AdfCaps { simplex: Some(unit(vec![profile(&["Grayscale8"], &[200])])), duplex: None }),
    };
    let caps = capabilities_from_document(Some(&doc));
    assert_eq!(caps.sources, vec![ScanSource::Adf]);
    assert_eq!(caps.dpis, vec![200]);
    assert_eq!(caps.color_modes, vec![ColorMode::Gray]);
    assert!(!caps.supports_duplex);
}

#[test]
fn a_capability_reply_that_is_no_success_is_an_error() {
    match capabilities_from_reply(404, "") {
        Err(PapyrError::Backend(text)) => assert_eq!(text, "HTTP error: 404 Not Found"),
        other => panic!("expected a backend error, got {:?}", other),
    }
    match capabilities_from_reply(199, FULL_DOCUMENT) {
        Err(PapyrError::Backend(text)) => assert_eq!(text, "HTTP error: 199 <unknown status code>"),
        other => panic!("expected a backend error, got {:?}", other),
    }
    match capabilities_from_reply(42, "") {
        Err(PapyrError::Backend(text)) => assert_eq!(text, "HTTP error: 42 <unknown status code>"),
        other => panic!("expected a backend error, got {:?}", other),
    }
    assert!(capabilities_from_reply(300, FULL_DOCUMENT).is_err());
    let caps = capabilities_from_reply(200, "no document").unwrap();
    assert_eq!(caps.dpis, vec![75, 150, 300, 600]);
    let caps = capabilities_from_reply(299, FULL_DOCUMENT).unwrap();
    assert_eq!(caps.dpis, vec![300, 600, 1200, 150, 200]);
}

fn device_at(host: &str, port: u16, use_https: bool) -> EsclDevice {
    EsclDevice {
        id: "escl_x".to_string(),
        name: "x".to_string(),
        host: host.to_string(),
        port,
        use_https,
    }
}

#[test]
fn base_urls() {
    assert_eq!(device_at("192.168.1.20", 8080, false).base_url(), "http://192.168.1.20:8080/eSCL");
    assert_eq!(device_at("192.168.1.20", 80, false).base_url(), "http://192.168.1.20/eSCL");
    assert_eq!(device_at("192.168.1.20", 443, true).base_url(), "https://192.168.1.20/eSCL");
    assert_eq!(device_at("printer.local", 443, false).base_url(), "http://printer.local/eSCL");
    assert_eq!(device_at("fe80::1", 8443, true).base_url(), "https://[fe80::1]:8443/eSCL");
    assert_eq!(device_at("[fe80::1]", 80, true).base_url(), "https://[fe80::1]/eSCL");
    assert_eq!(device_at("h", 65535, false).base_url(), "http://h:65535/eSCL");
    assert_eq!(device_at("h", 0, false).base_url(), "http://h:0/eSCL");
}

#[test]
fn service_kinds() {
    assert_eq!(ServiceKind::Uscan.service_type(), "_uscan._tcp.local.");
    assert_eq!(ServiceKind::Uscans.service_type(), "_uscans._tcp.local.");
    assert_eq!(ServiceKind::Airscan.service_type(), "_airscan._tcp.local.");
    assert!(!ServiceKind::Uscan.implies_https());
    assert!(ServiceKind::Uscans.implies_https());
    assert!(ServiceKind::Airscan.implies_https());
    for kind in [ServiceKind::Uscan, ServiceKind::Uscans, ServiceKind::Airscan] {
        assert_eq!(service_kind(kind.service_type()), Some(kind));
    }
    assert_eq!(service_kind("_ipp._tcp.local."), None);
    assert_eq!(service_kind("_uscan._tcp.local"), None);
}

fn service(fullname: &str, addresses: &[&str], port: u16, kind: ServiceKind) -> ResolvedService {
    ResolvedService {
        fullname: fullname.to_string(),
        addresses: addresses.iter().map(|a| a.to_string()).collect(),
        port,
        kind,
    }
}

#[test]
fn a_device_from_a_resolved_service() {
    let svc = service("Office Jet._uscans._tcp.local.", &["10.0.0.7", "fe80::7"], 443, ServiceKind::Uscans);
    let device = EsclDevice::from_service(&svc).unwrap();
    assert_eq!(device.name, "Office Jet._uscans._tcp.local");
    assert_eq!(device.id, "escl_Office Jet__uscans__tcp_local");
    assert_eq!(device.host, "10.0.0.7");
    assert_eq!(device.port, 443);
    assert!(device.use_https);
    assert_eq!(device.base_url(), "https://10.0.0.7/eSCL");
    let info = device.info();
    assert_eq!(info.id, device.id);
    assert_eq!(info.name, device.name);
    assert_eq!(info.backend, Backend::Escl);

    assert!(EsclDevice::from_service(&service("x.", &[], 80, ServiceKind::Uscan)).is_none());
    let dotted = EsclDevice::from_service(&service("x...", &["h"], 80, ServiceKind::Uscan)).unwrap();
    assert_eq!(dotted.name, "x");
    assert_eq!(dotted.id, "escl_x");
    assert!(!dotted.use_https);
}

#[test]
fn discovery_keeps_the_first_device_of_each_identifier() {
    let mut cache = DeviceCache::new();
    let list = cache.refresh(&vec![
        service("a._uscan._tcp.local.", &["10.0.0.1"], 80, ServiceKind::Uscan),
        service("b._uscan._tcp.local.", &[], 80, ServiceKind::Uscan),
        service("a._uscan._tcp.local.", &["10.0.0.2"], 8080, ServiceKind::Uscan),
        service("c._airscan._tcp.local.", &["10.0.0.3"], 443, ServiceKind::Airscan),
    ]);
    let ids: Vec<&str> = list.iter().map(|i| i.id.as_str()).collect();
    assert_eq!(ids, vec!["escl_a__uscan__tcp_local", "escl_c__airscan__tcp_local"]);
    assert!(list.iter().all(|i| i.backend == Backend::Escl));
    let a = cache.find("escl_a__uscan__tcp_local").unwrap();
    assert_eq!(a.host, "10.0.0.1");
    assert_eq!(a.port, 80);
    match cache.find("escl_b__uscan__tcp_local") {
        Err(PapyrError::NotFound(id)) => assert_eq!(id, "escl_b__uscan__tcp_local"),
        other => panic!("expected NotFound, got {:?}", other),
    }
    assert_eq!(cache.list().len(), 2);
}

#[test]
fn discovery_without_services_lists_nothing() {
    let mut cache = DeviceCache::new();
    cache.refresh(&vec![service("a.", &["10.0.0.1"], 80, ServiceKind::Uscan)]);
    assert_eq!(cache.list().len(), 1);
    let list = cache.refresh(&Vec::new());
    assert!(list.is_empty());
    assert!(cache.list().is_empty());
    assert!(cache.find("escl_a").is_err());
}

#[test]
fn a_job_created_ahead_fails_at_once() {
    let mut session = EsclSession::new(&device(), &config(ScanSource::Flatbed, 150, ColorMode::Color));
    match session.create_job(response(503, None, b"")) {
        Err(PapyrError::Backend(text)) => assert_eq!(text, "Scan job creation failed: HTTP 503"),
        other => panic!("expected a backend error, got {:?}", other),
    }
    assert_eq!(session.state(), EsclState::Completed);
    // No job, so nothing to delete, and the stream is at its end.
    assert!(session.close().is_none());
    let outcome = session.advance(EsclReply::Nothing);
    assert!(matches!(outcome.event, Ok(None)));
    assert!(outcome.delete.is_none());
}

#[test]
fn a_job_created_ahead_streams_like_any_other() {
    let mut session = EsclSession::new(&device(), &config(ScanSource::Flatbed, 150, ColorMode::Color));
    assert!(session.create_job(response(201, Some("http://h/eSCL/ScanJobs/7"), b"")).is_ok());
    assert_eq!(session.state(), EsclState::JobCreated);
    assert_eq!(session.job_url(), "http://h/eSCL/ScanJobs/7");
    // Creating it again changes nothing.
    assert!(session.create_job(response(503, None, b"")).is_ok());
    assert_eq!(session.state(), EsclState::JobCreated);
    let script = vec![response(200, None, &[0xFF, 0xD8, 0xFF, 0xE0]), response(404, None, b"")];
    let (events, error, requests) = drive(&mut session, script);
    assert!(error.is_none());
    assert_eq!(
        kinds(&events),
        vec![
            "PageStarted(0)".to_string(),
            "PageData([255, 216, 255, 224])".to_string(),
            "JobComplete".to_string(),
        ]
    );
    assert_eq!(
        requests,
        vec![
            "GET http://h/eSCL/ScanJobs/7/NextDocument".to_string(),
            "GET http://h/eSCL/ScanJobs/7/NextDocument".to_string(),
            "DELETE http://h/eSCL/ScanJobs/7".to_string(),
        ]
    );
}

#[test]
fn a_job_created_ahead_is_deleted_when_the_session_is_given_up() {
    let mut session = EsclSession::new(&device(), &config(ScanSource::Flatbed, 150, ColorMode::Color));
    assert!(session.create_job(response(201, Some("http://h/eSCL/ScanJobs/8"), b"")).is_ok());
    assert_eq!(session.close(), Some("http://h/eSCL/ScanJobs/8".to_string()));
    assert_eq!(session.close(), None);
}

#[test]
fn three_pages_count_up() {
    let mut session = EsclSession::new(&device(), &config(ScanSource::Adf, 300, ColorMode::Gray));
    let script = vec![
        response(201, Some("http://h/eSCL/ScanJobs/9"), b""),
        response(200, None, b"a"),
        response(200, None, b"b"),
        response(200, None, b"c"),
        response(404, None, b""),
    ];
    let (events, error, _) = drive(&mut session, script);
    assert!(error.is_none());
    let started: Vec<u32> = events
        .iter()
        .filter_map(|e| match e {
            ScanEvent::PageStarted(i) => Some(*i),
            _ => None,
        })
        .collect();
    assert_eq!(started, vec![0, 1, 2]);
    assert!(matches!(events.last(), Some(ScanEvent::JobComplete)));
    assert_eq!(events.iter().filter(|e| matches!(e, ScanEvent::JobComplete)).count(), 1);
    assert_eq!(events.len(), 7);
}

#[test]
fn a_page_cap_of_zero_fetches_nothing() {
    let mut capped = config(ScanSource::Adf, 300, ColorMode::Gray);
    capped.max_pages = Some(0);
    let mut session = EsclSession::new(&device(), &capped);
    let (events, error, requests) = drive(&mut session, vec![response(201, Some("http://h/j"), b"")]);
    assert!(error.is_none());
    assert_eq!(kinds(&events), vec!["PageStarted(0)".to_string(), "JobComplete".to_string()]);
    assert_eq!(requests, vec!["POST http://h/eSCL/ScanJobs".to_string(), "DELETE http://h/j".to_string()]);
}

#[test]
fn status_lines() {
    let mut text = String::new();
    append_status_line(&mut text, 200);
    assert_eq!(text, "200 OK");
    let mut text = String::from("HTTP error: ");
    append_status_line(&mut text, 503);
    assert_eq!(text, "HTTP error: 503 Service Unavailable");
    let mut text = String::new();
    append_status_line_of(&mut text, 404, Some("Gone Fishing"));
    assert_eq!(text, "404 Gone Fishing");
    let mut text = String::new();
    append_status_line_of(&mut text, 7, None);
    assert_eq!(text, "7 <unknown status code>");
    assert!(status_is_success(200) && status_is_success(299) && status_is_success(204));
    assert!(!status_is_success(199) && !status_is_success(300) && !status_is_success(0));
}

#[test]
fn protocol_constants() {
    assert_eq!(capabilities_url("http://h/eSCL"), "http://h/eSCL/ScannerCapabilities");
    assert_eq!(CAPABILITY_TIMEOUT_SECS, 30);
    assert_eq!(DOCUMENT_TIMEOUT_SECS, 120);
    assert_eq!(DISCOVERY_WINDOW_SECS, 10);
    assert_eq!(JOB_CONTENT_TYPE, "text/xml");
}

const FULL_DOCUMENT: &str = r#"<?xml version="1.0" encoding="UTF-8"?>
<!-- what the scanner can do -->
<scan:ScannerCapabilities xmlns:scan="http://schemas.hp.com/imaging/escl/2011/05/03" xmlns:pwg="http://www.pwg.org/schemas/2010/12/sm">
  <pwg:Version>2.6</pwg:Version>
  <pwg:MakeAndModel>Office Jet</pwg:MakeAndModel>
  <scan:Platen>
    <scan:PlatenInputCaps>
      <scan:MinWidth>16</scan:MinWidth>
      <scan:MaxWidth>2550</scan:MaxWidth>
      <scan:MinHeight>16</scan:MinHeight>
      <scan:MaxHeight>3508</scan:MaxHeight>
      <scan:SettingProfiles>
        <scan:SettingProfile>
          <scan:ColorModes>
            <scan:ColorMode>RGB24</scan:ColorMode>
            <scan:ColorMode>Grayscale8</scan:ColorMode>
            <scan:ColorMode>Sepia</scan:ColorMode>
          </scan:ColorModes>
          <scan:SupportedResolutions>
            <scan:DiscreteResolutions>
              <scan:DiscreteResolution>
                <scan:XResolution>300</scan:XResolution>
                <scan:YResolution>300</scan:YResolution>
              </scan:DiscreteResolution>
              <scan:DiscreteResolution>
                <scan:XResolution>600</scan:XResolution>
                <scan:YResolution>600</scan:YResolution>
              </scan:DiscreteResolution>
              <scan:DiscreteResolution>
                <scan:XResolution>0</scan:XResolution>
                <scan:YResolution>0</scan:YResolution>
              </scan:DiscreteResolution>
            </scan:DiscreteResolutions>
          </scan:SupportedResolutions>
        </scan:SettingProfile>
        <scan:SettingProfile>
          <scan:ColorModes><scan:ColorMode>RGB48</scan:ColorMode></scan:ColorModes>
          <scan:SupportedResolutions>
            <scan:DiscreteResolutions>
              <scan:DiscreteResolution><scan:XResolution>600</scan:XResolution><scan:YResolution>600</scan:YResolution></scan:DiscreteResolution>
              <scan:DiscreteResolution><scan:YResolution>1200</scan:YResolution><scan:XResolution>1200</scan:XResolution></scan:DiscreteResolution>
            </scan:DiscreteResolutions>
          </scan:SupportedResolutions>
        </scan:SettingProfile>
      </scan:SettingProfiles>
    </scan:PlatenInputCaps>
  </scan:Platen>
  <scan:Adf>
    <scan:AdfSimplex>
      <scan:AdfSimplexInputCaps>
        <scan:SettingProfiles>
          <scan:SettingProfile>
            <scan:ColorModes>
              <scan:ColorMode>BlackAndWhite1</scan:ColorMode>
              <scan:ColorMode>Grayscale16</scan:ColorMode>
            </scan:ColorModes>
            <scan:SupportedResolutions>
              <scan:DiscreteResolutions>
                <scan:DiscreteResolution><scan:XResolution>150</scan:XResolution><scan:YResolution>150</scan:YResolution></scan:DiscreteResolution>
                <scan:DiscreteResolution><scan:XResolution>300</scan:XResolution><scan:YResolution>300</scan:YResolution></scan:DiscreteResolution>
              </scan:DiscreteResolutions>
            </scan:SupportedResolutions>
          </scan:SettingProfile>
        </scan:SettingProfiles>
      </scan:AdfSimplexInputCaps>
    </scan:AdfSimplex>
    <scan:AdfDuplex>
      <scan:AdfDuplexInputCaps>
        <scan:SettingProfiles>
          <scan:SettingProfile>
            <scan:SupportedResolutions>
              <scan:DiscreteResolutions>
                <scan:DiscreteResolution><scan:XResolution>200</scan:XResolution><scan:YResolution>200</scan:YResolution></scan:DiscreteResolution>
              </scan:DiscreteResolutions>
            </scan:SupportedResolutions>
          </scan:SettingProfile>
        </scan:SettingProfiles>
      </scan:AdfDuplexInputCaps>
    </scan:AdfDuplex>
    <scan:FeederCapacity>50</scan:FeederCapacity>
  </scan:Adf>
</scan:ScannerCapabilities>
"#;

fn assert_defaults(xml: &str) {
    let caps = parse_capabilities(xml);
    assert_eq!(caps.sources, vec![ScanSource::Flatbed], "sources for {:?}", xml);
    assert_eq!(caps.dpis, vec![75, 150, 300, 600], "dpis for {:?}", xml);
    assert_eq!(caps.color_modes, vec![ColorMode::Color, ColorMode::Gray, ColorMode::Bw]);
    assert_eq!(
        caps.page_sizes,
        vec![PageSize { width_mm: 216, height_mm: 279 }, PageSize { width_mm: 210, height_mm: 297 }]
    );
    assert!(!caps.supports_duplex);
}

#[test]
fn capability_defaults_for_malformed_xml() {
    assert_defaults("<<<not xml");
    assert_defaults("");
    assert_defaults("no markup at all");
    assert_defaults("<ScannerCapabilities><Platen></ScannerCapabilities>");
    assert_defaults("<ScannerCapabilities><Platen>");
    assert_defaults("</ScannerCapabilities>");
    assert_defaults("<ScannerCapabilities><Adf><AdfDuplex/></Adf></ScannerCapabilities");
    assert_defaults("<?xml version=\"1.0\"?>");
    assert!(read_document("<<<not xml").is_none());
    assert!(read_document("<a><b></a></b>").is_none());
    assert!(read_document("<a>").is_none());
    assert!(read_document("").is_none());
    assert!(read_document("<a/>").is_some());
}

#[test]
fn a_document_with_a_bad_number_is_no_document() {
    let with = |x: &str, y: &str| -> String {
        format!(
            "<ScannerCapabilities><Adf/><Platen><PlatenInputCaps><SettingProfiles><SettingProfile>\
             <SupportedResolutions><DiscreteResolutions><DiscreteResolution>{}{}</DiscreteResolution>\
             </DiscreteResolutions></SupportedResolutions></SettingProfile></SettingProfiles>\
             </PlatenInputCaps></Platen></ScannerCapabilities>",
            x, y
        )
    };
    let good = parse_capabilities(&with("<XResolution>1200</XResolution>", "<YResolution>600</YResolution>"));
    assert_eq!(good.sources, vec![ScanSource::Flatbed, ScanSource::Adf]);
    assert_eq!(good.dpis, vec![1200]);
    assert_defaults(&with("<XResolution>fine</XResolution>", "<YResolution>600</YResolution>"));
    assert_defaults(&with("<XResolution> 300 </XResolution>", "<YResolution>600</YResolution>"));
    assert_defaults(&with("<XResolution>300</XResolution>", ""));
    assert_defaults(&with("", "<YResolution>600</YResolution>"));
    assert_defaults(&with("<XResolution/>", "<YResolution>600</YResolution>"));
    assert_defaults(&with("<XResolution>4294967296</XResolution>", "<YResolution>600</YResolution>"));
    assert_defaults("<ScannerCapabilities><Platen><PlatenInputCaps><MaxWidth>wide</MaxWidth></PlatenInputCaps></Platen></ScannerCapabilities>");
}

#[test]
fn capabilities_from_the_text_of_a_document() {
    let caps = parse_capabilities(FULL_DOCUMENT);
    assert_eq!(caps.sources, vec![ScanSource::Flatbed, ScanSource::Adf, ScanSource::AdfDuplex]);
    assert_eq!(caps.dpis, vec![300, 600, 1200, 150, 200]);
    assert_eq!(caps.color_modes, vec![ColorMode::Color, ColorMode::Gray, ColorMode::Bw]);
    assert_eq!(
        caps.page_sizes,
        vec![PageSize { width_mm: 216, height_mm: 279 }, PageSize { width_mm: 210, height_mm: 297 }]
    );
    assert!(caps.supports_duplex);
    assert!(caps.check_consistent());
}

#[test]
fn the_document_behind_a_text() {
    let doc = read_document(FULL_DOCUMENT).unwrap();
    let platen = doc.platen.unwrap().input_caps.unwrap();
    assert_eq!((platen.min_width, platen.max_width), (Some(16), Some(2550)));
    assert_eq!((platen.min_height, platen.max_height), (Some(16), Some(3508)));
    assert_eq!(platen.profiles.len(), 2);
    assert_eq!(platen.profiles[0].color_modes, vec!["RGB24", "Grayscale8", "Sepia"]);
    assert_eq!(
        platen.profiles[0].resolutions,
        vec![
            DiscreteResolution { x_resolution: 300, y_resolution: 300 },
            DiscreteResolution { x_resolution: 600, y_resolution: 600 },
            DiscreteResolution { x_resolution: 0, y_resolution: 0 },
        ]
    );
    assert_eq!(platen.profiles[1].color_modes, vec!["RGB48"]);
    assert_eq!(platen.profiles[1].resolutions[1], DiscreteResolution { x_resolution: 1200, y_resolution: 1200 });
    let adf = doc.adf.unwrap();
    let simplex = adf.simplex.unwrap();
    assert_eq!(simplex.profiles[0].color_modes, vec!["BlackAndWhite1", "Grayscale16"]);
    assert_eq!(simplex.max_width, None);
    let duplex = adf.duplex.unwrap();
    assert!(duplex.profiles[0].color_modes.is_empty());
    assert_eq!(duplex.profiles[0].resolutions, vec![DiscreteResolution { x_resolution: 200, y_resolution: 200 }]);
}

#[test]
fn units_of_a_document() {
    let caps = parse_capabilities("<ScannerCapabilities><Platen/></ScannerCapabilities>");
    assert_eq!(caps.sources, vec![ScanSource::Flatbed]);
    assert!(!caps.supports_duplex);
    let caps = parse_capabilities("<ScannerCapabilities><Adf/></ScannerCapabilities>");
    assert_eq!(caps.sources, vec![ScanSource::Adf]);
    assert!(!caps.supports_duplex);
    let caps = parse_capabilities("<x><Adf><AdfDuplex/></Adf></x>");
    assert_eq!(caps.sources, vec![ScanSource::Adf, ScanSource::AdfDuplex]);
    assert!(caps.supports_duplex);
    assert_eq!(caps.dpis, vec![75, 150, 300, 600]);
    // What stands in another place than its own does not count.
    let caps = parse_capabilities("<d><Other><Platen/><Adf/></Other><AdfDuplex/><XResolution>9</XResolution></d>");
    assert_eq!(caps.sources, vec![ScanSource::Flatbed]);
    assert_eq!(caps.dpis, vec![75, 150, 300, 600]);
    let doc = read_document("<d><Other><Platen/></Other></d>").unwrap();
    assert!(doc.platen.is_none() && doc.adf.is_none());
}

fn shown(events: &[XmlEvent]) -> Vec<String> {
    events.iter().map(|e| format!("{:?}", e)).collect()
}

#[test]
fn a_text_is_cut_into_events() {
    let events = read_events("<a:b x=\"1\">t<c/><!-- n --></a:b>");
    assert_eq!(
        shown(&events),
        vec!["Start(\"b\")", "Text(\"t\")", "Empty(\"c\")", "Other", "End(\"b\")", "Eof"]
    );
    assert_eq!(shown(&read_events("")), vec!["Eof"]);
    assert_eq!(shown(&read_events("héé")), vec!["Text(\"héé\")", "Eof"]);
    assert_eq!(shown(&read_events("<é>ü</é>")), vec!["Start(\"é\")", "Text(\"ü\")", "End(\"é\")", "Eof"]);
    let events = read_events("<a><b");
    assert!(matches!(events.last(), Some(XmlEvent::Malformed)));
    assert!(matches!(events[0], XmlEvent::Start(_)));
}

#[test]
fn a_document_from_events() {
    let text = |t: &str| XmlEvent::Text(t.to_string());
    let start = |t: &str| XmlEvent::Start(t.to_string());
    let end = |t: &str| XmlEvent::End(t.to_string());
    let doc = document_from_events(vec![
        start("ScannerCapabilities"),
        text("\n  "),
        start("Platen"),
        XmlEvent::Empty("PlatenInputCaps".to_string()),
        end("Platen"),
        XmlEvent::Other,
        end("ScannerCapabilities"),
        XmlEvent::Eof,
    ])
    .unwrap();
    let platen = doc.platen.unwrap();
    assert!(platen.input_caps.unwrap().profiles.is_empty());
    assert!(doc.adf.is_none());
    assert!(document_from_events(vec![start("a"), end("b"), XmlEvent::Eof]).is_none());
    assert!(document_from_events(vec![start("a"), XmlEvent::Malformed]).is_none());
    assert!(document_from_events(vec![start("a"), XmlEvent::Eof]).is_none());
    assert!(document_from_events(vec![XmlEvent::Eof]).is_none());
    assert!(document_from_events(vec![]).is_none());
    assert!(document_from_events(vec![end("a")]).is_none());
}

#[test]
fn places_of_a_document() {
    assert_eq!(child(Place::Top, "anything"), Place::Document);
    assert_eq!(child(Place::Document, "Platen"), Place::Platen);
    assert_eq!(child(Place::Document, "Adf"), Place::Adf);
    assert_eq!(child(Place::Document, "platen"), Place::Elsewhere);
    assert_eq!(child(Place::Platen, "PlatenInputCaps"), Place::InputCaps(Unit::Platen));
    assert_eq!(child(Place::Adf, "AdfSimplex"), Place::AdfSimplex);
    assert_eq!(child(Place::Adf, "AdfDuplex"), Place::AdfDuplex);
    assert_eq!(child(Place::AdfSimplex, "AdfSimplexInputCaps"), Place::InputCaps(Unit::Simplex));
    assert_eq!(child(Place::AdfDuplex, "AdfDuplexInputCaps"), Place::InputCaps(Unit::Duplex));
    assert_eq!(child(Place::AdfDuplex, "AdfSimplexInputCaps"), Place::Elsewhere);
    let u = Unit::Simplex;
    assert_eq!(child(Place::InputCaps(u), "MinWidth"), Place::Dimension(u, Dimension::MinWidth));
    assert_eq!(child(Place::InputCaps(u), "MaxWidth"), Place::Dimension(u, Dimension::MaxWidth));
    assert_eq!(child(Place::InputCaps(u), "MinHeight"), Place::Dimension(u, Dimension::MinHeight));
    assert_eq!(child(Place::InputCaps(u), "MaxHeight"), Place::Dimension(u, Dimension::MaxHeight));
    assert_eq!(child(Place::InputCaps(u), "SettingProfiles"), Place::SettingProfiles(u));
    assert_eq!(child(Place::SettingProfiles(u), "SettingProfile"), Place::SettingProfile(u));
    assert_eq!(child(Place::SettingProfile(u), "ColorModes"), Place::ColorModes(u));
    assert_eq!(child(Place::ColorModes(u), "ColorMode"), Place::ColorMode(u));
    assert_eq!(child(Place::SettingProfile(u), "SupportedResolutions"), Place::SupportedResolutions(u));
    assert_eq!(child(Place::SupportedResolutions(u), "DiscreteResolutions"), Place::DiscreteResolutions(u));
    assert_eq!(child(Place::DiscreteResolutions(u), "DiscreteResolution"), Place::DiscreteResolution(u));
    assert_eq!(child(Place::DiscreteResolution(u), "XResolution"), Place::XResolution(u));
    assert_eq!(child(Place::DiscreteResolution(u), "YResolution"), Place::YResolution(u));
    assert_eq!(child(Place::XResolution(u), "XResolution"), Place::Elsewhere);
    assert_eq!(child(Place::Elsewhere, "Platen"), Place::Elsewhere);
}

#[test]
fn a_byte_order_mark_is_passed_over() {
    assert_eq!(shown(&read_events("\u{feff}<a/>")), vec!["Empty(\"a\")", "Eof"]);
    assert_eq!(shown(&read_events("\u{feff}")), vec!["Eof"]);
    assert_eq!(
        shown(&read_events("\u{feff}\u{feff}<a><b/></a>")),
        vec!["Start(\"a\")", "Empty(\"b\")", "End(\"a\")", "Eof"]
    );
    // A document with a short first tag behind the mark is read once.
    assert!(read_document("\u{feff}<a><b/></a>").is_some());
    let marked = format!("\u{feff}{}", FULL_DOCUMENT);
    assert_eq!(shown(&read_events(&marked)), shown(&read_events(FULL_DOCUMENT)));
    let caps = parse_capabilities(&marked);
    let bare = parse_capabilities(FULL_DOCUMENT);
    assert_eq!(caps.sources, bare.sources);
    assert_eq!(caps.dpis, bare.dpis);
    assert_eq!(caps.color_modes, bare.color_modes);
    assert_eq!(caps.page_sizes, bare.page_sizes);
    assert_eq!(caps.supports_duplex, bare.supports_duplex);
    assert_ne!(caps.dpis, papyr_core::models::Capabilities::defaults().dpis);
}

#[test]
fn pages_come_in_the_order_served() {
    let mut session = EsclSession::new(&device(), &config(ScanSource::Adf, 300, ColorMode::Gray));
    let mut script = vec![response(201, Some("http://h/eSCL/ScanJobs/4"), b"")];
    let mut expected = Vec::new();
    for page in 0..5u8 {
        let bytes = vec![page, page, 7];
        script.push(response(200, None, &bytes));
        expected.push(format!("PageStarted({})", page));
        expected.push(format!("PageData({:?})", bytes));
    }
    script.push(response(404, None, b""));
    expected.push("JobComplete".to_string());
    let (events, error, requests) = drive(&mut session, script);
    assert!(error.is_none());
    assert_eq!(kinds(&events), expected);
    assert_eq!(requests.iter().filter(|r| r.starts_with("DELETE")).count(), 1);
    // Giving the session up afterwards asks for no second deletion.
    assert!(session.close().is_none());
    assert!(session.close().is_none());
    assert_eq!(session.pages_started(), 5);
}

#[test]
fn closing_a_session_with_a_job_asks_for_one_deletion() {
    let mut session = EsclSession::new(&device(), &config(ScanSource::Adf, 300, ColorMode::Gray));
    let first = session.advance(response(201, Some("http://h/eSCL/ScanJobs/4"), b""));
    assert!(matches!(first.event, Ok(Some(ScanEvent::PageStarted(0)))));
    assert!(first.delete.is_none());
    assert_eq!(session.close().as_deref(), Some("http://h/eSCL/ScanJobs/4"));
    assert_eq!(session.close(), None);
    let after = session.advance(response(404, None, b""));
    assert!(matches!(after.event, Ok(None)));
    assert!(after.delete.is_none());
}
