use papyr_core::backends::escl::device::{EsclDevice, ResolvedService, ServiceKind};
use papyr_core::backends::{ica, sane, twain, wia};
use papyr_core::models::{
    backend_of_id, Backend, Capabilities, ColorMode, PageSize, PapyrError, ScanArea, ScanConfig,
    ScanSource,
};

fn letter_config() -> ScanConfig {
    ScanConfig {
        source: ScanSource::Flatbed,
        duplex: false,
        dpi: 150,
        color_mode: ColorMode::Color,
        page_size: PageSize { width_mm: 216, height_mm: 279 },
        area: None,
        brightness: None,
        contrast: None,
        max_pages: None,
    }
}

#[test]
fn default_capabilities_hold_the_documented_values() {
    let caps = Capabilities::defaults();
    assert_eq!(caps.sources, vec![ScanSource::Flatbed]);
    assert_eq!(caps.dpis, vec![75, 150, 300, 600]);
    assert_eq!(caps.color_modes, vec![ColorMode::Color, ColorMode::Gray, ColorMode::Bw]);
    assert_eq!(
        caps.page_sizes,
        vec![PageSize { width_mm: 216, height_mm: 279 }, PageSize { width_mm: 210, height_mm: 297 }]
    );
    assert!(!caps.supports_duplex);
    assert!(caps.check_consistent());
}

#[test]
fn completing_fills_empty_lists_and_adds_the_duplex_feeder() {
    let caps = Capabilities {
        sources: vec![ScanSource::Flatbed, ScanSource::Adf],
        dpis: vec![0, 200, 0],
        color_modes: vec![],
        page_sizes: vec![PageSize { width_mm: 0, height_mm: 10 }],
        supports_duplex: true,
    };
    assert!(!caps.check_consistent());
    let done = caps.completed();
    assert_eq!(done.sources, vec![ScanSource::Flatbed, ScanSource::Adf, ScanSource::AdfDuplex]);
    assert_eq!(done.dpis, vec![200]);
    assert_eq!(done.color_modes, vec![ColorMode::Color, ColorMode::Gray, ColorMode::Bw]);
    assert_eq!(
        done.page_sizes,
        vec![PageSize { width_mm: 216, height_mm: 279 }, PageSize { width_mm: 210, height_mm: 297 }]
    );
    assert!(done.supports_duplex);
    assert!(done.check_consistent());
}

#[test]
fn completing_keeps_a_consistent_record() {
    let caps = Capabilities {
        sources: vec![ScanSource::Adf, ScanSource::AdfDuplex],
        dpis: vec![300],
        color_modes: vec![ColorMode::Gray],
        page_sizes: vec![PageSize { width_mm: 148, height_mm: 210 }],
        supports_duplex: true,
    };
    let done = caps.clone().completed();
    assert_eq!(done.sources, caps.sources);
    assert_eq!(done.dpis, caps.dpis);
    assert_eq!(done.color_modes, caps.color_modes);
    assert_eq!(done.page_sizes, caps.page_sizes);
    assert_eq!(done.supports_duplex, caps.supports_duplex);
}

#[test]
fn completing_an_empty_record_gives_the_defaults() {
    let caps = Capabilities {
        sources: vec![],
        dpis: vec![],
        color_modes: vec![],
        page_sizes: vec![],
        supports_duplex: false,
    };
    let done = caps.completed();
    let defaults = Capabilities::defaults();
    assert_eq!(done.sources, defaults.sources);
    assert_eq!(done.dpis, defaults.dpis);
    assert_eq!(done.color_modes, defaults.color_modes);
    assert_eq!(done.page_sizes, defaults.page_sizes);
    assert!(!done.supports_duplex);
}

#[test]
fn a_request_within_the_capabilities_is_valid() {
    let caps = Capabilities::defaults();
    assert!(letter_config().validate(&caps).is_ok());
}

fn invalid_text(config: &ScanConfig, caps: &Capabilities) -> String {
    match config.validate(caps) {
        Err(PapyrError::InvalidConfig(text)) => text,
        other => panic!("expected InvalidConfig, got {:?}", other),
    }
}

#[test]
fn each_violation_is_named() {
    let caps = Capabilities::defaults();
    let mut config = letter_config();
    config.source = ScanSource::Adf;
    assert_eq!(invalid_text(&config, &caps), "source not supported");

    let mut config = letter_config();
    config.duplex = true;
    assert_eq!(invalid_text(&config, &caps), "duplex not supported");

    let mut config = letter_config();
    config.dpi = 200;
    assert_eq!(invalid_text(&config, &caps), "resolution not supported");

    let mut caps_gray = Capabilities::defaults();
    caps_gray.color_modes = vec![ColorMode::Gray];
    assert_eq!(invalid_text(&letter_config(), &caps_gray), "color mode not supported");

    let mut config = letter_config();
    config.page_size = PageSize { width_mm: 100, height_mm: 100 };
    assert_eq!(invalid_text(&config, &caps), "page size not supported");

    let mut config = letter_config();
    config.area = Some(ScanArea { x_mm: 200, y_mm: 0, width_mm: 17, height_mm: 10 });
    assert_eq!(invalid_text(&config, &caps), "scan area outside the page");
}

#[test]
fn a_scan_area_may_reach_the_edge_of_the_page() {
    let page = PageSize { width_mm: 216, height_mm: 279 };
    assert!(ScanArea { x_mm: 200, y_mm: 270, width_mm: 16, height_mm: 9 }.fits(page));
    assert!(!ScanArea { x_mm: 200, y_mm: 270, width_mm: 16, height_mm: 10 }.fits(page));
    assert!(!ScanArea { x_mm: 0, y_mm: 0, width_mm: 0, height_mm: 9 }.fits(page));
    assert!(!ScanArea { x_mm: u32::MAX, y_mm: 0, width_mm: 2, height_mm: 9 }.fits(page));
}

#[test]
fn error_messages_carry_their_kind() {
    assert_eq!(PapyrError::NotFound("escl_x".to_string()).message(), "scanner not found: escl_x");
    assert_eq!(PapyrError::InvalidConfig("dpi".to_string()).message(), "invalid config: dpi");
    assert_eq!(PapyrError::Backend("HTTP 503".to_string()).message(), "backend error: HTTP 503");
    assert_eq!(PapyrError::NotImplemented.message(), "not implemented");
    assert_eq!(PapyrError::Other("x".to_string()).message(), "other: x");
}

#[test]
fn named_page_sizes() {
    assert_eq!(PageSize::letter(), PageSize { width_mm: 216, height_mm: 279 });
    assert_eq!(PageSize::a4(), PageSize { width_mm: 210, height_mm: 297 });
    assert_eq!(PageSize::a5(), PageSize { width_mm: 148, height_mm: 210 });
}

#[test]
fn backend_tags_compare() {
    assert_eq!(Backend::Escl, Backend::Escl);
    assert_ne!(Backend::Escl, Backend::Twain);
}

#[test]
fn identifiers_lie_in_the_namespace_of_their_backend() {
    assert_eq!(Backend::Wia.namespace(), "wia_");
    assert_eq!(Backend::Sane.namespace(), "sane_");
    assert_eq!(Backend::Ica.namespace(), "ica_");
    assert_eq!(Backend::Escl.namespace(), "escl_");
    assert_eq!(Backend::Twain.namespace(), "twain_");
    assert_eq!(Backend::Unknown.namespace(), "");

    assert_eq!(backend_of_id(&wia::device_id(3)), Backend::Wia);
    assert_eq!(backend_of_id(&sane::device_id("net:scanner")), Backend::Sane);
    assert_eq!(backend_of_id(&twain::device_id(3)), Backend::Twain);
    assert_eq!(backend_of_id(&ica::device_id("HP MFP")), Backend::Ica);
    assert_eq!(backend_of_id(&ica::network_device_id("10.0.0.9")), Backend::Ica);
    assert_eq!(backend_of_id(&ica::numbered_device_id("usb", 0)), Backend::Ica);
    assert_eq!(backend_of_id(&ica::tool_device_id("epson2")), Backend::Ica);
    let service = ResolvedService {
        fullname: "x._uscan._tcp.local.".to_string(),
        addresses: vec!["10.0.0.1".to_string()],
        port: 80,
        kind: ServiceKind::Uscan,
    };
    assert_eq!(backend_of_id(&EsclDevice::from_service(&service).unwrap().id), Backend::Escl);

    assert_eq!(backend_of_id("usb_0"), Backend::Unknown);
    assert_eq!(backend_of_id("escl"), Backend::Unknown);
    assert_eq!(backend_of_id("ESCL_x"), Backend::Unknown);
    assert_eq!(backend_of_id(""), Backend::Unknown);
}
