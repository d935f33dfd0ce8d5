use papyr_core::backends::native::{
    bitmap_header, image_size, white_bitmap, BitmapInfo, ScanResult, ScannedPage,
    SinglePageSession, SinglePageStage,
};
use papyr_core::backends::twain::{TwainState, TwainStep};
use papyr_core::backends::ica::discovery::{
    has_scanner_word, ippusb_host, ippusb_url, job_location, join_words, lower_names_match,
    names_match, registry_scanners, scanning_printers, shown_name, split_words, tool_scanners,
    usb_scanners,
};
use papyr_core::backends::{ica, sane, twain, wia};
use papyr_core::models::{Backend, ScannerInfo};
use papyr_core::models::{Capabilities, ColorMode, PageSize, PapyrError, ScanEvent, ScanSource};

fn page() -> ScannedPage {
    ScannedPage { bytes: vec![b'B', b'M', 1, 2, 3], width_px: 1275, height_px: 1650, dpi: 150, color_mode: ColorMode::Gray }
}

#[test]
fn a_scan_in_one_go_gives_a_whole_stream() {
    let mut session = SinglePageSession::new();
    assert!(session.needs_scan());
    assert!(matches!(session.advance(ScanResult::Page(page())), Ok(Some(ScanEvent::PageStarted(0)))));
    assert!(!session.needs_scan());
    match session.advance(ScanResult::Nothing) {
        Ok(Some(ScanEvent::PageData(bytes))) => assert_eq!(bytes, vec![b'B', b'M', 1, 2, 3]),
        other => panic!("expected the page data, got {:?}", other),
    }
    match session.advance(ScanResult::Nothing) {
        Ok(Some(ScanEvent::PageComplete(meta))) => {
            assert_eq!(meta.index, 0);
            assert_eq!(meta.width_px, 1275);
            assert_eq!(meta.height_px, 1650);
            assert_eq!(meta.dpi, 150);
            assert_eq!(meta.color_mode, ColorMode::Gray);
        }
        other => panic!("expected the page to complete, got {:?}", other),
    }
    assert!(matches!(session.advance(ScanResult::Nothing), Ok(Some(ScanEvent::JobComplete))));
    assert_eq!(session.stage(), SinglePageStage::Completed);
    for _ in 0..3 {
        assert!(matches!(session.advance(ScanResult::Page(page())), Ok(None)));
    }
}

#[test]
fn a_failed_scan_ends_the_session() {
    let mut session = SinglePageSession::new();
    match session.advance(ScanResult::Failed(PapyrError::Backend("No WIA devices found".to_string()))) {
        Err(PapyrError::Backend(text)) => assert_eq!(text, "No WIA devices found"),
        other => panic!("expected the error, got {:?}", other),
    }
    assert_eq!(session.stage(), SinglePageStage::Completed);
    assert!(matches!(session.advance(ScanResult::Nothing), Ok(None)));

    let mut session = SinglePageSession::new();
    match session.advance(ScanResult::Nothing) {
        Err(PapyrError::Other(text)) => assert_eq!(text, "no result of the scan that was due"),
        other => panic!("expected an error, got {:?}", other),
    }
    assert!(matches!(session.advance(ScanResult::Nothing), Ok(None)));
}

#[test]
fn sane_identifiers() {
    assert_eq!(sane::device_id("epson2:libusb:001:004"), "sane_epson2:libusb:001:004");
    assert_eq!(sane::device_id(""), "sane_");
    assert_eq!(sane::device_name("sane_epson2:libusb:001:004"), "epson2:libusb:001:004");
    assert_eq!(sane::device_name("epson2_net"), "epson2_net");
    assert_eq!(sane::device_name("sane_"), "");
    assert_eq!(sane::device_name("san"), "san");
    assert_eq!(sane::device_name(&sane::device_id("net:host")), "net:host");
    // A name with underscores is found again, and names that differ in a
    // colon and an underscore only keep apart.
    let name = "hpaio:/usb/HP_LaserJet";
    assert_eq!(sane::device_name(&sane::device_id(name)), name);
    assert_ne!(sane::device_id("a:b"), sane::device_id("a_b"));
    assert_eq!(sane::device_name(&sane::device_id("a_b")), "a_b");
    assert_eq!(sane::device_name(&sane::device_id("sane_x")), "sane_x");
}

#[test]
fn sane_capabilities_from_options() {
    let names = |list: &[&str]| -> Vec<String> { list.iter().map(|n| n.to_string()).collect() };
    let caps = sane::capabilities_for_options(&names(&["resolution", "mode", "source"]));
    assert_eq!(caps.sources, vec![ScanSource::Flatbed, ScanSource::Adf]);
    assert_eq!(caps.dpis, vec![75, 150, 300, 600]);
    assert_eq!(caps.color_modes, vec![ColorMode::Color, ColorMode::Gray, ColorMode::Bw]);
    assert!(!caps.supports_duplex);
    let caps = sane::capabilities_for_options(&names(&["tl-x", "sources"]));
    assert_eq!(caps.sources, vec![ScanSource::Flatbed]);
    assert_eq!(caps.dpis, vec![75, 150, 300, 600]);
    assert!(sane::capabilities_for_options(&Vec::new()).check_consistent());
}

#[test]
fn sane_frames_and_status() {
    assert_eq!(sane::frame_color_mode(0), ColorMode::Gray);
    assert_eq!(sane::frame_color_mode(1), ColorMode::Color);
    assert_eq!(sane::frame_color_mode(2), ColorMode::Bw);
    assert_eq!(sane::frame_color_mode(-1), ColorMode::Bw);
    let page = sane::page_from_frame(vec![1, 2], 2480, 3508, 1, 300);
    assert_eq!(page.bytes, vec![1, 2]);
    assert_eq!((page.width_px, page.height_px, page.dpi), (2480, 3508, 300));
    assert_eq!(page.color_mode, ColorMode::Color);
    assert_eq!(sane::page_from_frame(vec![], -1, 0, 0, 150).width_px, u32::MAX);
    match sane::status_error("Failed to open device", 9) {
        PapyrError::Backend(text) => assert_eq!(text, "Failed to open device: 9"),
        other => panic!("expected a backend error, got {:?}", other),
    }
    match sane::status_error("SANE read error", -3) {
        PapyrError::Backend(text) => assert_eq!(text, "SANE read error: -3"),
        other => panic!("expected a backend error, got {:?}", other),
    }
    match sane::status_error("x", i32::MIN) {
        PapyrError::Backend(text) => assert_eq!(text, "x: -2147483648"),
        other => panic!("expected a backend error, got {:?}", other),
    }
    assert_eq!(sane::STATUS_GOOD, 0);
    assert_eq!(sane::STATUS_EOF, 5);
}

#[test]
fn twain_identifiers() {
    assert_eq!(twain::device_id(0), "twain_0");
    assert_eq!(twain::device_id(4294967295), "twain_4294967295");
    assert_eq!(twain::source_id("twain_17").ok(), Some(17));
    assert_eq!(twain::source_id("twain_+17").ok(), Some(17));
    assert_eq!(twain::source_id("twain_007").ok(), Some(7));
    assert_eq!(twain::source_id("twain_4294967295").ok(), Some(u32::MAX));
    for bad in ["twain_4294967296", "twain_", "twain_+", "twain_-1", "twain_1x", "twain_ 1", "twain1", "escl_1", ""] {
        match twain::source_id(bad) {
            Err(PapyrError::Backend(text)) => assert_eq!(text, "Invalid TWAIN device ID"),
            other => panic!("expected a backend error for {:?}, got {:?}", bad, other),
        }
    }
    for n in [0u32, 1, 9, 10, 99, 12345, u32::MAX] {
        assert_eq!(twain::source_id(&twain::device_id(n)).ok(), Some(n));
    }
}

#[test]
fn twain_names_and_pixel_types() {
    assert_eq!(twain::source_name("Canon", "LiDE 400"), "Canon LiDE 400");
    assert_eq!(twain::source_name("", "LiDE 400"), "LiDE 400");
    assert_eq!(twain::source_name("Canon", ""), "Canon ");
    assert_eq!(twain::pixel_type(ColorMode::Bw), 0);
    assert_eq!(twain::pixel_type(ColorMode::Gray), 1);
    assert_eq!(twain::pixel_type(ColorMode::Color), 2);
}

#[test]
fn twain_and_wia_capabilities() {
    let caps = twain::capabilities();
    assert_eq!(caps.sources, vec![ScanSource::Flatbed, ScanSource::Adf, ScanSource::AdfDuplex]);
    assert_eq!(caps.dpis, vec![75, 150, 200, 300, 600, 1200]);
    assert_eq!(caps.color_modes, vec![ColorMode::Bw, ColorMode::Gray, ColorMode::Color]);
    assert_eq!(caps.page_sizes, vec![PageSize::letter(), PageSize::a4(), PageSize::a5()]);
    assert!(caps.supports_duplex && caps.check_consistent());
    let caps = wia::capabilities();
    assert_eq!(caps.sources, vec![ScanSource::Flatbed, ScanSource::Adf, ScanSource::AdfDuplex]);
    assert_eq!(caps.dpis, vec![75, 150, 300, 600, 1200]);
    assert_eq!(caps.color_modes, vec![ColorMode::Color, ColorMode::Gray, ColorMode::Bw]);
    assert_eq!(caps.page_sizes, vec![PageSize::letter(), PageSize::a4()]);
    assert!(caps.supports_duplex && caps.check_consistent());
}

#[test]
fn wia_identifiers() {
    assert_eq!(wia::device_id(0), "wia_device_0");
    assert_eq!(wia::device_name(0), "WIA Scanner 1");
    assert_eq!(wia::device_id(11), "wia_device_11");
    assert_eq!(wia::device_name(u32::MAX), "WIA Scanner 4294967296");
}

#[test]
fn ica_identifiers() {
    assert_eq!(ica::device_id("HP LaserJet MFP M28w"), "ica_hp_laserjet_mfp_m28w");
    assert_eq!(ica::device_id("ÉPSON  X"), "ica_épson__x");
    assert_eq!(ica::device_id_from_lower("a b"), "ica_a_b");
    assert_eq!(ica::network_device_id("HP LaserJet [DB80CD]._ipp._tcp.local."), "ica_escl_HP_LaserJet_[DB80CD]__ipp__tcp_local_");
    assert_eq!(ica::numbered_device_id("usb", 0), "ica_usb_0");
    assert_eq!(ica::numbered_device_id("x", u64::MAX), "ica_x_18446744073709551615");
    assert_eq!(ica::numbered_device_id("ioreg_scanner", 12), "ica_ioreg_scanner_12");
    assert_eq!(ica::tool_device_id("epson2"), "ica_epson2");
    assert_eq!(ica::tool_device_name("ica_epson2"), "epson2");
    assert_eq!(ica::tool_device_name("epson2"), "epson2");
    assert_eq!(ica::tool_device_name(&ica::tool_device_id("genesys:libusb")), "genesys:libusb");
}

#[test]
fn ica_capabilities_by_identifier() {
    let caps = ica::capabilities_for("ica_canon_lide", None);
    assert_eq!(caps.sources, vec![ScanSource::Flatbed]);
    assert_eq!(caps.dpis, vec![75, 150, 300]);
    assert_eq!(caps.color_modes, vec![ColorMode::Color, ColorMode::Gray, ColorMode::Bw]);
    assert_eq!(caps.page_sizes, vec![PageSize::letter(), PageSize::a4(), PageSize::a5()]);
    assert!(!caps.supports_duplex);

    let caps = ica::capabilities_for("ica_hp_laserjet", None);
    assert_eq!(caps.sources, vec![ScanSource::Flatbed, ScanSource::Adf, ScanSource::AdfDuplex]);
    assert_eq!(caps.dpis, vec![75, 150, 300, 600, 1200]);
    assert!(caps.supports_duplex);
    assert!(caps.check_consistent());
    assert!(ica::capabilities_for("Some MFP", None).supports_duplex);
    assert!(!ica::capabilities_for("some mfp", None).supports_duplex);
}

#[test]
fn ica_capabilities_with_a_probe() {
    let probe = Capabilities {
        sources: vec![ScanSource::Adf],
        dpis: vec![],
        color_modes: vec![ColorMode::Gray],
        page_sizes: vec![PageSize { width_mm: 1, height_mm: 1 }],
        supports_duplex: false,
    };
    let caps = ica::capabilities_for("ica_hp", Some(probe));
    assert_eq!(caps.sources, vec![ScanSource::Adf]);
    assert_eq!(caps.dpis, vec![75, 150, 300, 600, 1200]);
    assert_eq!(caps.color_modes, vec![ColorMode::Gray]);
    assert_eq!(caps.page_sizes, vec![PageSize::letter(), PageSize::a4(), PageSize::a5()]);
    assert!(!caps.supports_duplex);
}

#[test]
fn ica_capabilities_from_a_help_text() {
    let help = "Usage: scanimage [OPTION]...\n\
    --source Flatbed|ADF|ADF Duplex [Flatbed]\n\
    --mode Lineart|Gray|Color [Color]\n\
    --resolution 75|150|300|600dpi [150]\n\
    Duplex is not an option here --mode\n";
    let caps = ica::capabilities_from_help(help);
    assert_eq!(caps.sources, vec![ScanSource::Flatbed, ScanSource::Adf, ScanSource::AdfDuplex]);
    assert_eq!(caps.color_modes, vec![ColorMode::Color, ColorMode::Gray, ColorMode::Bw]);
    assert_eq!(caps.dpis, vec![75, 150, 300, 600]);
    assert!(caps.page_sizes.is_empty());
    assert!(caps.supports_duplex);

    let caps = ica::capabilities_from_help("--resolution 1200\n--resolution 7500");
    assert_eq!(caps.dpis, vec![1200, 75]);
    assert!(caps.sources.is_empty() && caps.color_modes.is_empty() && !caps.supports_duplex);
    let caps = ica::capabilities_from_help("");
    assert!(caps.sources.is_empty() && caps.dpis.is_empty() && caps.color_modes.is_empty());
    // What is named on another line than the option does not count.
    let caps = ica::capabilities_from_help("--source\nFlatbed");
    assert!(caps.sources.is_empty());
}

fn listed(found: &[ScannerInfo]) -> Vec<(String, String)> {
    assert!(found.iter().all(|i| i.backend == Backend::Ica));
    found.iter().map(|i| (i.id.clone(), i.name.clone())).collect()
}

fn pair(id: &str, name: &str) -> (String, String) {
    (id.to_string(), name.to_string())
}

#[test]
fn printers_that_scan() {
    let listing = "Printers:\n\n    HP LaserJet MFP M28w:\n\n      Status: Idle\n      Scanning support: Yes\n      URI: x\n\n    Old Printer:\n\n      Status: Idle\n      Scanning support: No\n\n    Canon TS5000::\r\n      Scanning support: Yes\n";
    assert_eq!(scanning_printers(listing), vec!["HP LaserJet MFP M28w".to_string(), "Canon TS5000".to_string()]);
    assert_eq!(scanning_printers(""), Vec::<String>::new());
    assert_eq!(scanning_printers("Scanning support: Yes\n"), Vec::<String>::new());
    assert_eq!(scanning_printers("A:\nScanning support: Yes"), vec!["A".to_string()]);
    assert_eq!(scanning_printers("A:\nScanning support: Yes\nStatus:\nB:\n"), vec!["A".to_string()]);
    // A heading that says it all counts for itself.
    assert_eq!(scanning_printers("Scanning support: Yes:"), vec!["Scanning support: Yes".to_string()]);
}

#[test]
fn usb_devices_that_read_like_scanners() {
    let listing = "USB:\n\n    USB 3.1 Bus:\n\n      Host Controller Driver: AppleT8103\n\n        HP LaserJet MFP M28w:\n\n          Product ID: 0xbe2a\n          Vendor ID: 0x03f0  (HP Inc.)\n          Manufacturer: HP Inc scanners\n\n        Keyboard:\n";
    assert_eq!(
        listed(&usb_scanners(listing)),
        vec![
            pair("ica_usb_0", "HP LaserJet MFP M28w"),
            pair("ica_detected_1", "Manufacturer: HP Inc scanners"),
        ]
    );
    assert!(usb_scanners("Keyboard:\nMouse:\n").is_empty());
    // Ten bytes are too few for a line to count by itself.
    assert_eq!(listed(&usb_scanners("ab Scanner")), vec![]);
    assert_eq!(listed(&usb_scanners("abc scanner")), vec![pair("ica_detected_0", "abc scanner")]);
    assert_eq!(listed(&usb_scanners("Canon:")), vec![pair("ica_usb_0", "Canon")]);
    assert_eq!(
        listed(&usb_scanners("  Epson ET-2800 Series:  \nEpson ET-2800 Series")),
        vec![pair("ica_usb_0", "Epson ET-2800 Series")]
    );
}

#[test]
fn registry_entries_that_name_scanners() {
    let listing = "+-o Root\n  | \"USB Product Name\" = \"Flatbed Scanner 3000\"\n  | \"Imaging\" = Yes\n  |   Scanner\n  | Imaging unit 7 \n  | \"Scanner";
    assert_eq!(
        listed(&registry_scanners(listing)),
        vec![
            pair("ica_ioreg_scanner_0", "USB Product Name\" = \"Flatbed Scanner 3000"),
            pair("ica_ioreg_scanner_1", "Imaging"),
            pair("ica_ioreg_scanner_2", "|   Scanner"),
            pair("ica_ioreg_scanner_3", "| Imaging unit 7"),
            pair("ica_ioreg_scanner_4", "| \"Scanner"),
        ]
    );
    assert!(registry_scanners("nothing here\n").is_empty());
    assert!(registry_scanners("\"abc\" Scanner").is_empty());
    assert_eq!(listed(&registry_scanners("\"abcd\" Scanner")), vec![pair("ica_ioreg_scanner_0", "abcd")]);
}

#[test]
fn devices_that_scanimage_lists() {
    let listing = "device `epson2:libusb:001:004' is a Epson GT-1500 flatbed scanner\ndevice `net:host' is a scanner\ndevice `plain' is a scanner\nNo scanners\n device `a:b' indented\ndevice 'a:b` turned round\n";
    assert_eq!(
        listed(&tool_scanners(listing)),
        vec![pair("ica_epson2", "libusb:001:004"), pair("ica_net", "host")]
    );
    assert!(tool_scanners("").is_empty());
    assert_eq!(listed(&tool_scanners("device `:' x")), vec![pair("ica_", "")]);
}

#[test]
fn printer_addresses() {
    let line = "device for HP_LaserJet: ippusb://HP%20LaserJet%20MFP%20%5BDB80CD%5D._ipp._tcp.local./ipp/print?uuid=1234";
    assert_eq!(ippusb_host(line), Some("HP LaserJet MFP [DB80CD]._ipp._tcp.local.".to_string()));
    assert_eq!(ippusb_host("device for Canon: ippusb://Canon/ipp"), None);
    assert_eq!(ippusb_host("HP ippusb://nothing-behind"), None);
    assert_eq!(ippusb_host("HP ippusb:///x"), Some(String::new()));
    assert_eq!(ippusb_host("HP"), None);
    assert_eq!(
        ippusb_url(line, "HP_LaserJet"),
        Some("ippusb://HP%20LaserJet%20MFP%20%5BDB80CD%5D._ipp._tcp.local./ipp/print".to_string())
    );
    assert_eq!(ippusb_url(line, "Canon"), None);
    assert_eq!(ippusb_url("HP ippusb://x", "HP"), None);
    assert_eq!(ippusb_url("?uuid=1 HP ippusb://x", "HP"), None);
    assert_eq!(ippusb_url("HP ippusb://?uuid=1", "HP"), Some("ippusb://".to_string()));
}

#[test]
fn the_location_of_a_job() {
    let reply = "HTTP/1.1 201 Created\r\nServer: x\r\nLocation: http://10.0.0.9/eSCL/ScanJobs/12\r\nContent-Length: 0\r\n\r\n";
    assert_eq!(job_location(reply), Some("http://10.0.0.9/eSCL/ScanJobs/12".to_string()));
    assert_eq!(job_location("HTTP/1.1 503\r\n\r\n"), None);
    assert_eq!(job_location("location: x"), None);
    assert_eq!(job_location("Location:x\nLocation: y"), Some("Location:x".to_string()));
    assert_eq!(job_location("Location:  a Location: b "), Some("a b".to_string()));
    assert_eq!(job_location(""), None);
}

#[test]
fn names_of_devices_are_compared_without_case_and_spaces() {
    assert!(names_match("HP LaserJet MFP M28w", "HP LaserJet MFP M28w (DB80CD)"));
    assert!(names_match("hp laserjet", "HP LaserJet MFP M28w"));
    assert!(names_match("HP LaserJet MFP M28w", "laserjet"));
    assert!(!names_match("Canon TS5000", "HP LaserJet"));
    assert!(names_match("anything", "(hidden)"));
    assert!(names_match("", "x"));
}

#[test]
fn a_name_from_an_identifier() {
    assert_eq!(shown_name("ica_hp_laserjet_mfp"), "Hp Laserjet Mfp");
    assert_eq!(shown_name("ica_hp__laserJET_ "), "Hp Laserjet");
    assert_eq!(shown_name("canon_lide"), "Canon Lide");
    assert_eq!(shown_name("ica_"), "");
    assert_eq!(shown_name("ica_ßtraße"), "SStraße");
    assert_eq!(shown_name("ica_a\tb"), "A B");
}

#[test]
fn words_that_speak_of_a_scanner() {
    for text in ["flatbed scanner", "scan", "a multifunction device", "all-in-one", "mfp", "laserjet", "hp", "canon", "epson", "brother"] {
        assert!(has_scanner_word(text), "{}", text);
    }
    assert!(!has_scanner_word("keyboard"));
    assert!(!has_scanner_word("HP"));
    assert!(!has_scanner_word(""));
}

#[test]
fn names_in_lower_case_are_compared() {
    assert!(lower_names_match("hp laserjet", "hplaserjet mfp (usb)"));
    assert!(lower_names_match("hp laser jet mfp m28w", "laserjet"));
    assert!(!lower_names_match("HP", "hp"));
    assert!(!lower_names_match("canon", "epson (canon)"));
    assert!(lower_names_match("canon", "(canon)"));
}

#[test]
fn words_are_split_and_joined() {
    let words = |list: &[&str]| -> Vec<String> { list.iter().map(|w| w.to_string()).collect() };
    assert_eq!(split_words("  hp  laserjet\tmfp\n"), words(&["hp", "laserjet", "mfp"]));
    assert_eq!(split_words("one"), words(&["one"]));
    assert_eq!(split_words(" \u{3000} "), words(&[]));
    assert_eq!(split_words(""), words(&[]));
    for text in ["", " a", "a b", "a  b ", "\ta\nb\u{a0}c"] {
        let expected: Vec<String> = text.split_whitespace().map(|w| w.to_string()).collect();
        assert_eq!(split_words(text), expected);
    }
    assert_eq!(join_words(&words(&["a", "b", "c"])), "a b c");
    assert_eq!(join_words(&words(&["a"])), "a");
    assert_eq!(join_words(&words(&[])), "");
    assert_eq!(join_words(&words(&["", "x", ""])), " x ");
}

#[test]
fn the_header_of_a_bitmap() {
    let info = BitmapInfo { width: 1275, height: 1650, bits_per_pixel: 24, image_size: 0, resolution: 0 };
    let header = bitmap_header(&info, 1275 * 1650 * 3);
    let mut expected = Vec::new();
    expected.extend_from_slice(b"BM");
    expected.extend_from_slice(&(1275u32 * 1650 * 3 + 54).to_le_bytes());
    expected.extend_from_slice(&[0u8; 4]);
    expected.extend_from_slice(&54u32.to_le_bytes());
    expected.extend_from_slice(&40u32.to_le_bytes());
    expected.extend_from_slice(&1275u32.to_le_bytes());
    expected.extend_from_slice(&1650u32.to_le_bytes());
    expected.extend_from_slice(&1u16.to_le_bytes());
    expected.extend_from_slice(&24u16.to_le_bytes());
    expected.extend_from_slice(&[0u8; 24]);
    assert_eq!(header, expected);
    assert_eq!(header.len(), 54);
    let full = bitmap_header(&BitmapInfo { width: u32::MAX, height: 0x0102_0304, bits_per_pixel: 0xABCD, image_size: 7, resolution: 2835 }, u32::MAX);
    assert_eq!(&full[2..6], &[0xFF, 0xFF, 0xFF, 0xFF]);
    assert_eq!(&full[18..22], &[0xFF, 0xFF, 0xFF, 0xFF]);
    assert_eq!(&full[22..26], &[0x04, 0x03, 0x02, 0x01]);
    assert_eq!(&full[26..30], &[1, 0, 0xCD, 0xAB]);
    assert_eq!(&full[34..38], &7u32.to_le_bytes());
    assert_eq!(&full[38..42], &2835u32.to_le_bytes());
    assert_eq!(&full[42..46], &2835u32.to_le_bytes());
}

#[test]
fn a_white_page_as_a_bitmap() {
    assert_eq!(image_size(3, 2, 3), 24);
    assert_eq!(image_size(4, 2, 1), 8);
    assert_eq!(image_size(5, 1, 1), 8);
    assert_eq!(image_size(0, 9, 3), 0);
    assert_eq!(image_size(9, 0, 3), 0);
    assert_eq!(image_size(1275, 1650, 3), 3828 * 1650);
    assert_eq!(image_size(u32::MAX, u32::MAX, u32::MAX), u32::MAX);
    assert_eq!(image_size(65536, 65536, 1), u32::MAX);
    assert_eq!(image_size(65532, 65536, 1), 4294705152);
    assert_eq!(image_size(4, 0x3FFF_FFFF, 1), 0xFFFF_FFFC);
    let info = BitmapInfo { width: 3, height: 2, bits_per_pixel: 24, image_size: image_size(3, 2, 3), resolution: 2835 };
    let bytes = white_bitmap(&info);
    assert_eq!(bytes.len(), 54 + 24);
    assert_eq!(&bytes[..2], b"BM");
    assert_eq!(&bytes[2..6], &78u32.to_le_bytes());
    assert_eq!(&bytes[34..38], &24u32.to_le_bytes());
    assert!(bytes[54..].iter().all(|b| *b == 0xFF));
    assert_eq!(bytes[..54], bitmap_header(&info, 24)[..]);
}

#[test]
fn twain_states() {
    let all = [
        TwainState::State1,
        TwainState::State2,
        TwainState::State3,
        TwainState::State4,
        TwainState::State5,
    ];
    let allowed = |step: TwainStep| -> Vec<u8> { all.iter().filter(|s| s.may(step)).map(|s| s.rank()).collect() };
    assert_eq!(allowed(TwainStep::LoadManager), vec![1]);
    assert_eq!(allowed(TwainStep::OpenManager), vec![2]);
    assert_eq!(allowed(TwainStep::OpenSource), vec![3, 4, 5]);
    assert_eq!(allowed(TwainStep::SetCapability), vec![4, 5]);
    assert_eq!(allowed(TwainStep::EnableSource), vec![4]);
    assert_eq!(allowed(TwainStep::Transfer), vec![5]);
    assert_eq!(allowed(TwainStep::DisableSource), vec![5]);
    assert_eq!(allowed(TwainStep::CloseSource), vec![4, 5]);
    assert_eq!(allowed(TwainStep::CloseManager), vec![3, 4, 5]);
    // A whole session, there and back.
    let mut state = TwainState::State1;
    for (step, rank) in [
        (TwainStep::LoadManager, 2),
        (TwainStep::OpenManager, 3),
        (TwainStep::OpenSource, 4),
        (TwainStep::SetCapability, 4),
        (TwainStep::EnableSource, 5),
        (TwainStep::Transfer, 5),
        (TwainStep::DisableSource, 4),
        (TwainStep::CloseSource, 3),
        (TwainStep::CloseManager, 2),
    ] {
        assert!(state.may(step));
        state = state.then(step);
        assert_eq!(state.rank(), rank);
    }
    for (step, text) in [
        (TwainStep::LoadManager, "DSM already loaded"),
        (TwainStep::SetCapability, "Source not opened"),
        (TwainStep::EnableSource, "Source not opened"),
        (TwainStep::Transfer, "Source not enabled"),
    ] {
        match twain::refusal(step) {
            PapyrError::Backend(t) => assert_eq!(t, text),
            other => panic!("expected a backend error, got {:?}", other),
        }
    }
}

#[test]
fn twain_identity_fields() {
    let field = twain::identity_field("Papyr");
    assert_eq!(field.len(), 34);
    assert_eq!(&field[..5], b"Papyr");
    assert!(field[5..].iter().all(|b| *b == 0));
    let long = twain::identity_field("0123456789012345678901234567890123456789");
    assert_eq!(long.len(), 34);
    assert_eq!(&long[..33], b"012345678901234567890123456789012");
    assert_eq!(long[33], 0);
    assert_eq!(twain::identity_field(""), vec![0u8; 34]);
    assert_eq!(&twain::identity_field("é")[..3], &[0xC3, 0xA9, 0]);
}

#[test]
fn sane_display_names() {
    assert_eq!(sane::display_name("Epson", "GT-1500"), "Epson GT-1500");
    assert_eq!(sane::display_name("", "GT-1500"), "GT-1500");
    assert_eq!(sane::display_name("Epson", ""), "Epson");
    assert_eq!(sane::display_name("", ""), "");
    assert_eq!(sane::display_name(" a ", " b "), "a   b");
}

#[test]
fn sane_reads_join_their_chunks() {
    let mut data: Vec<u8> = Vec::new();
    assert!(matches!(sane::read_step(&mut data, sane::STATUS_GOOD, &[1, 2, 3]), sane::ReadStep::ReadOn));
    assert!(matches!(sane::read_step(&mut data, sane::STATUS_GOOD, &[]), sane::ReadStep::ReadOn));
    assert!(matches!(sane::read_step(&mut data, sane::STATUS_GOOD, &[4]), sane::ReadStep::ReadOn));
    assert_eq!(data, vec![1, 2, 3, 4]);
    // The end of the data adds nothing, whatever the buffer holds.
    assert!(matches!(sane::read_step(&mut data, sane::STATUS_EOF, &[9, 9]), sane::ReadStep::PageRead));
    assert_eq!(data, vec![1, 2, 3, 4]);
    match sane::read_step(&mut data, 9, &[7]) {
        sane::ReadStep::Failed(PapyrError::Backend(text)) => assert_eq!(text, "SANE read error: 9"),
        _ => panic!("expected an error"),
    }
    assert_eq!(data, vec![1, 2, 3, 4]);
    assert_eq!(sane::page_from_frame(data, 2, 2, 0, 600).dpi, 600);
}

#[test]
fn identifiers_decide_who_answers() {
    assert!(twain::capabilities_for("twain_3").is_ok());
    assert!(twain::capabilities_for("twain_3").unwrap().check_consistent());
    for other in ["escl_x", "twain_", "twain_x", "wia_device_0", ""] {
        match twain::capabilities_for(other) {
            Err(PapyrError::NotFound(id)) => assert_eq!(id, other),
            _ => panic!("expected that {:?} is not found", other),
        }
    }
    assert_eq!(wia::device_place("wia_device_0"), Some(0));
    assert_eq!(wia::device_place(&wia::device_id(41)), Some(41));
    assert_eq!(wia::device_place("wia_device_"), None);
    assert_eq!(wia::device_place("wia_0"), None);
    assert!(wia::capabilities_for("wia_device_7").unwrap().check_consistent());
    for other in ["escl_x", "wia_device_x", "twain_1", ""] {
        match wia::capabilities_for(other) {
            Err(PapyrError::NotFound(id)) => assert_eq!(id, other),
            _ => panic!("expected that {:?} is not found", other),
        }
    }
}

#[test]
fn the_address_behind_a_network_identifier() {
    assert_eq!(
        ica::network_job_url("ica_escl_192_168_1_20").as_deref(),
        Some("http://192.168.1.20:80/eSCL/ScanJobs")
    );
    assert_eq!(
        ica::network_job_url(&ica::network_device_id("10.0.0.7")).as_deref(),
        Some("http://10.0.0.7:80/eSCL/ScanJobs")
    );
    assert_eq!(ica::network_job_url("ica_escl_").as_deref(), Some("http://:80/eSCL/ScanJobs"));
    assert_eq!(ica::network_job_url("ica_usb_0"), None);
    assert_eq!(ica::network_job_url("escl_printer"), None);
}
