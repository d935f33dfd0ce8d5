use papyr_core::ffi::{
    backend_to_int, color_mode_to_int, decode_scan_config, encode_capabilities, int_to_color_mode,
    int_to_scan_source, scan_event_to_int, scan_source_to_int, settle_pull, RawScanConfig,
    ScanHost, SessionTable, START_FAILED,
};
use papyr_core::models::{
    Backend, BackendProvider, Capabilities, ColorMode, PageMeta, PageSize, PapyrError, ScanConfig,
    ScanEvent, ScanSession, ScanSource, ScannerInfo,
};
use papyr_core::registry::BackendRegistry;

#[test]
fn backend_numbers() {
    assert_eq!(backend_to_int(Backend::Wia), 0);
    assert_eq!(backend_to_int(Backend::Sane), 1);
    assert_eq!(backend_to_int(Backend::Ica), 2);
    assert_eq!(backend_to_int(Backend::Escl), 3);
    assert_eq!(backend_to_int(Backend::Twain), 99);
    assert_eq!(backend_to_int(Backend::Unknown), 99);
}

#[test]
fn source_and_color_mode_numbers() {
    assert_eq!(scan_source_to_int(ScanSource::Flatbed), 0);
    assert_eq!(scan_source_to_int(ScanSource::Adf), 1);
    assert_eq!(scan_source_to_int(ScanSource::AdfDuplex), 2);
    assert_eq!(int_to_scan_source(0), ScanSource::Flatbed);
    assert_eq!(int_to_scan_source(1), ScanSource::Adf);
    assert_eq!(int_to_scan_source(2), ScanSource::AdfDuplex);
    assert_eq!(int_to_scan_source(3), ScanSource::Flatbed);
    assert_eq!(int_to_scan_source(-1), ScanSource::Flatbed);
    assert_eq!(color_mode_to_int(ColorMode::Color), 0);
    assert_eq!(color_mode_to_int(ColorMode::Gray), 1);
    assert_eq!(color_mode_to_int(ColorMode::Bw), 2);
    assert_eq!(int_to_color_mode(0), ColorMode::Color);
    assert_eq!(int_to_color_mode(1), ColorMode::Gray);
    assert_eq!(int_to_color_mode(2), ColorMode::Bw);
    assert_eq!(int_to_color_mode(7), ColorMode::Color);
    for source in [ScanSource::Flatbed, ScanSource::Adf, ScanSource::AdfDuplex] {
        assert_eq!(int_to_scan_source(scan_source_to_int(source)), source);
    }
    for mode in [ColorMode::Color, ColorMode::Gray, ColorMode::Bw] {
        assert_eq!(int_to_color_mode(color_mode_to_int(mode)), mode);
    }
}

#[test]
fn event_numbers() {
    let meta = PageMeta { index: 0, width_px: 1, height_px: 1, dpi: 300, color_mode: ColorMode::Color };
    assert_eq!(scan_event_to_int(&ScanEvent::PageStarted(4)), 0);
    assert_eq!(scan_event_to_int(&ScanEvent::PageData(vec![1])), 1);
    assert_eq!(scan_event_to_int(&ScanEvent::PageComplete(meta)), 2);
    assert_eq!(scan_event_to_int(&ScanEvent::JobComplete), 3);
}

#[test]
fn a_foreign_scan_request() {
    let raw = RawScanConfig {
        source: 0,
        duplex: 0,
        dpi: 300,
        color_mode: 0,
        page_width_mm: 216,
        page_height_mm: 279,
    };
    let config = decode_scan_config(&raw);
    assert_eq!(config.source, ScanSource::Flatbed);
    assert!(!config.duplex);
    assert_eq!(config.dpi, 300);
    assert_eq!(config.color_mode, ColorMode::Color);
    assert_eq!(config.page_size, PageSize { width_mm: 216, height_mm: 279 });
    assert_eq!(config.area, None);
    assert_eq!(config.brightness, None);
    assert_eq!(config.contrast, None);
    assert_eq!(config.max_pages, None);

    let odd = RawScanConfig {
        source: 2,
        duplex: -5,
        dpi: -1,
        color_mode: 9,
        page_width_mm: 210,
        page_height_mm: i32::MIN,
    };
    let config = decode_scan_config(&odd);
    assert_eq!(config.source, ScanSource::AdfDuplex);
    assert!(config.duplex);
    assert_eq!(config.dpi, u32::MAX);
    assert_eq!(config.color_mode, ColorMode::Color);
    assert_eq!(config.page_size, PageSize { width_mm: 210, height_mm: 0x8000_0000 });
}

#[test]
fn a_capability_record_in_foreign_form() {
    let caps = Capabilities {
        sources: vec![ScanSource::Adf, ScanSource::Flatbed, ScanSource::AdfDuplex],
        dpis: vec![75, 1200, u32::MAX],
        color_modes: vec![ColorMode::Bw, ColorMode::Color],
        page_sizes: vec![PageSize { width_mm: 216, height_mm: 279 }],
        supports_duplex: true,
    };
    let raw = encode_capabilities(&caps);
    assert_eq!(raw.sources, vec![1, 0, 2]);
    assert_eq!(raw.dpis, vec![75, 1200, -1]);
    assert_eq!(raw.color_modes, vec![2, 0]);
    assert_eq!(raw.supports_duplex, 1);
    let raw = encode_capabilities(&Capabilities::defaults());
    assert_eq!(raw.sources, vec![0]);
    assert_eq!(raw.dpis, vec![75, 150, 300, 600]);
    assert_eq!(raw.color_modes, vec![0, 1, 2]);
    assert_eq!(raw.supports_duplex, 0);
}

/// A session that gives the events of a list and then ends as told.
struct Scripted {
    events: Vec<ScanEvent>,
    fail_at_end: bool,
}

impl Scripted {
    fn new(mut events: Vec<ScanEvent>, fail_at_end: bool) -> Scripted {
        events.reverse();
        Scripted { events, fail_at_end }
    }
}

impl ScanSession for Scripted {
    fn next_event(&mut self) -> Result<Option<ScanEvent>, PapyrError> {
        match self.events.pop() {
            Some(e) => Ok(Some(e)),
            None if self.fail_at_end => Err(PapyrError::Backend("lost".to_string())),
            None => Ok(None),
        }
    }
}

#[test]
fn session_numbers_rise_from_one() {
    let mut table: SessionTable<Scripted> = SessionTable::new();
    assert_eq!(table.len(), 0);
    assert!(!table.contains(0));
    assert!(!table.contains(1));
    assert_eq!(table.insert(Scripted::new(vec![], false)), 1);
    assert_eq!(table.insert(Scripted::new(vec![], false)), 2);
    assert_eq!(table.insert(Scripted::new(vec![], false)), 3);
    assert_eq!(table.len(), 3);
    assert!(table.contains(2));
    assert!(table.remove(2).is_some());
    assert!(table.remove(2).is_none());
    assert!(!table.contains(2));
    assert!(table.contains(1) && table.contains(3));
    // A number is not given out again while the process lives.
    assert_eq!(table.insert(Scripted::new(vec![], false)), 4);
    assert!(START_FAILED < 0);
}

#[test]
fn a_session_is_pulled_by_its_number() {
    let mut table: SessionTable<Scripted> = SessionTable::new();
    let one = table.insert(Scripted::new(
        vec![ScanEvent::PageStarted(0), ScanEvent::PageData(vec![7]), ScanEvent::JobComplete],
        false,
    ));
    let two = table.insert(Scripted::new(vec![ScanEvent::PageStarted(0)], true));
    let three = table.insert(Scripted::new(vec![], false));

    assert!(matches!(table.next_scan_event(one), Some(ScanEvent::PageStarted(0))));
    assert!(matches!(table.next_scan_event(two), Some(ScanEvent::PageStarted(0))));
    match table.next_scan_event(one) {
        Some(ScanEvent::PageData(bytes)) => assert_eq!(bytes, vec![7]),
        other => panic!("expected the page data, got {:?}", other),
    }
    assert_eq!(table.len(), 3);
    // `JobComplete` ends the session.
    assert!(matches!(table.next_scan_event(one), Some(ScanEvent::JobComplete)));
    assert!(!table.contains(one));
    assert!(table.next_scan_event(one).is_none());
    // An error ends the session and gives no event.
    assert!(table.next_scan_event(two).is_none());
    assert!(!table.contains(two));
    // So does the end of the stream.
    assert!(table.next_scan_event(three).is_none());
    assert_eq!(table.len(), 0);
}

#[test]
fn no_event_comes_for_a_number_without_session() {
    let mut table: SessionTable<Scripted> = SessionTable::new();
    table.insert(Scripted::new(vec![ScanEvent::PageStarted(0)], false));
    assert!(table.next_scan_event(99999).is_none());
    assert!(table.next_scan_event(0).is_none());
    assert!(table.next_scan_event(-1).is_none());
    assert!(table.next_scan_event(i32::MIN).is_none());
    assert_eq!(table.len(), 1);
}

#[test]
fn clearing_twice_is_clearing_once() {
    let mut table: SessionTable<Scripted> = SessionTable::new();
    table.clear();
    assert_eq!(table.len(), 0);
    table.insert(Scripted::new(vec![], false));
    table.insert(Scripted::new(vec![], false));
    table.clear();
    assert_eq!(table.len(), 0);
    assert!(!table.contains(1));
    table.clear();
    assert_eq!(table.len(), 0);
    // Numbering starts again.
    assert_eq!(table.insert(Scripted::new(vec![], false)), 1);
}

#[test]
fn what_a_pull_means_for_the_host() {
    assert!(matches!(settle_pull(Ok(Some(ScanEvent::JobComplete))), (Some(ScanEvent::JobComplete), false)));
    assert!(matches!(settle_pull(Ok(Some(ScanEvent::PageStarted(3)))), (Some(ScanEvent::PageStarted(3)), true)));
    assert!(matches!(settle_pull(Ok(Some(ScanEvent::PageData(vec![])))), (Some(ScanEvent::PageData(_)), true)));
    assert!(matches!(settle_pull(Ok(None)), (None, false)));
    assert!(matches!(settle_pull(Err(PapyrError::NotImplemented)), (None, false)));
}

/// A backend with one scanner, whose scans give one page.
struct DeskScanner;

impl BackendProvider for DeskScanner {
    fn name(&self) -> &'static str {
        "desk"
    }

    fn kind(&self) -> Backend {
        Backend::Escl
    }

    fn enumerate(&self) -> Vec<ScannerInfo> {
        vec![ScannerInfo { id: "escl_desk".to_string(), name: "Desk".to_string(), backend: Backend::Escl }]
    }

    fn capabilities(&self, device_id: &str) -> Result<Capabilities, PapyrError> {
        if device_id == "escl_desk" {
            Ok(Capabilities::defaults())
        } else {
            Err(PapyrError::NotFound(device_id.to_string()))
        }
    }

    fn start_scan(&self, _device_id: &str, cfg: ScanConfig) -> Result<Box<dyn ScanSession>, PapyrError> {
        cfg.validate(&Capabilities::defaults())?;
        Ok(Box::new(Scripted::new(
            vec![ScanEvent::PageStarted(0), ScanEvent::PageData(vec![1, 2, 3]), ScanEvent::JobComplete],
            false,
        )))
    }
}

type Host = ScanHost<Box<dyn BackendProvider>>;

/// The registry of a process without scanners.
fn bare_registry() -> BackendRegistry<Box<dyn BackendProvider>> {
    BackendRegistry::new()
}

fn desk_registry() -> BackendRegistry<Box<dyn BackendProvider>> {
    let mut registry = BackendRegistry::new();
    let backend: Box<dyn BackendProvider> = Box::new(DeskScanner);
    registry.register(backend);
    registry
}

fn letter(dpi: i32) -> RawScanConfig {
    RawScanConfig { source: 0, duplex: 0, dpi, color_mode: 0, page_width_mm: 216, page_height_mm: 279 }
}

#[test]
fn test_ffi_init_and_cleanup() {
    let mut host = Host::new();
    let result = host.init(bare_registry());
    assert_eq!(result, 0, "init should return 0 on success");
    assert!(host.is_initialized());
    host.cleanup();
    assert!(!host.is_initialized());
}

#[test]
fn test_ffi_list_scanners() {
    let mut host = Host::new();
    assert!(host.list_scanners().is_none());
    host.init(bare_registry());
    let scanners = host.list_scanners();
    assert!(scanners.is_some(), "list_scanners should not return nothing");
    println!("Found {} scanners", scanners.unwrap().len());
    host.cleanup();
    assert!(host.list_scanners().is_none());
}

#[test]
fn test_ffi_double_init() {
    let mut host = Host::new();
    let result1 = host.init(desk_registry());
    assert_eq!(result1, 0);
    let result2 = host.init(bare_registry());
    assert_eq!(result2, 0, "Multiple init calls should be safe");
    // The second call changed nothing: the scanner of the first registry is there.
    assert_eq!(host.list_scanners().unwrap().len(), 1);
    host.cleanup();
}

#[test]
fn test_ffi_cleanup_without_init() {
    let mut host = Host::new();
    host.cleanup();
    host.cleanup();
    assert!(!host.is_initialized());
    assert_eq!(host.init(bare_registry()), 0);
}

#[test]
fn test_ffi_get_capabilities_invalid_device() {
    let mut host = Host::new();
    host.init(desk_registry());
    let caps = host.get_capabilities("invalid_device_id_12345");
    assert!(caps.is_none(), "Should return nothing for invalid device ID");
    assert!(host.get_capabilities("escl_desk").is_some());
    host.cleanup();
    assert!(host.get_capabilities("escl_desk").is_none());
}

#[test]
fn test_ffi_start_scan_invalid_device() {
    let mut host = Host::new();
    assert!(host.start_scan("invalid_device_id_12345", &letter(300)) < 0);
    host.init(desk_registry());
    let session_id = host.start_scan("invalid_device_id_12345", &letter(300));
    assert!(session_id < 0, "Should return error for invalid device ID");
    assert_eq!(session_id, START_FAILED);
    // A request that the scanner does not allow starts no scan either.
    assert!(host.start_scan("escl_desk", &letter(301)) < 0);
    host.cleanup();
}

#[test]
fn test_ffi_scan_event_invalid_session() {
    let mut host = Host::new();
    host.init(desk_registry());
    let event = host.next_scan_event(99999);
    assert!(event.is_none(), "Should return nothing for invalid session ID");
    assert!(host.next_scan_event(0).is_none());
    assert!(host.next_scan_event(-1).is_none());
    host.cleanup();
}

#[test]
fn test_ffi_memory_safety() {
    let mut host = Host::new();
    host.init(desk_registry());
    let scanners = host.list_scanners();
    if let Some(list) = scanners {
        if !list.is_empty() {
            let first_scanner = &list[0];
            let caps = host.get_capabilities(&first_scanner.id);
            if let Some(capabilities) = caps {
                let raw = encode_capabilities(&capabilities);
                assert!(raw.sources.len() == capabilities.sources.len());
                assert!(raw.dpis.len() == capabilities.dpis.len());
                assert!(raw.color_modes.len() == capabilities.color_modes.len());
            }
        }
    }
    host.cleanup();
    host.cleanup();
}

#[test]
fn test_ffi_full_workflow() {
    for registry in [bare_registry(), desk_registry()] {
        let mut host = Host::new();
        let result = host.init(registry);
        assert_eq!(result, 0);
        let scanners = host.list_scanners();
        assert!(scanners.is_some());
        let list = scanners.unwrap();
        println!("Full workflow test: Found {} scanners", list.len());
        if !list.is_empty() {
            let first_scanner = &list[0];
            if let Some(capabilities) = host.get_capabilities(&first_scanner.id) {
                println!("  Sources: {}", capabilities.sources.len());
                println!("  DPIs: {}", capabilities.dpis.len());
                println!("  Color modes: {}", capabilities.color_modes.len());
            }
            let session_id = host.start_scan(&first_scanner.id, &letter(150));
            assert_eq!(session_id, 1);
            let mut types = Vec::new();
            loop {
                let event = match host.next_scan_event(session_id) {
                    Some(event) => event,
                    None => break,
                };
                let event_type = scan_event_to_int(&event);
                println!("  Event type: {}", event_type);
                types.push(event_type);
                if event_type == 3 {
                    break;
                }
            }
            assert_eq!(types, vec![0, 1, 3]);
            // The session ended with its job.
            assert!(host.next_scan_event(session_id).is_none());
            assert_eq!(host.start_scan(&first_scanner.id, &letter(150)), 2);
        } else {
            println!("  No scanners found");
        }
        host.cleanup();
        assert!(host.next_scan_event(1).is_none());
    }
}

#[test]
fn session_numbers_start_again_after_cleanup() {
    let mut host = Host::new();
    host.init(desk_registry());
    assert_eq!(host.start_scan("escl_desk", &letter(150)), 1);
    assert_eq!(host.start_scan("escl_desk", &letter(300)), 2);
    assert!(matches!(host.next_scan_event(2), Some(ScanEvent::PageStarted(0))));
    host.cleanup();
    assert!(host.next_scan_event(2).is_none());
    host.init(desk_registry());
    assert_eq!(host.start_scan("escl_desk", &letter(150)), 1);
}
