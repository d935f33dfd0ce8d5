//! The body of a scan job request.

use crate::backends::escl::capabilities::{color_mode_name, protocol_name};
use crate::models::{ScanConfig, ScanSource};
use crate::text::{append_decimal, decimal};
use vstd::prelude::*;

verus! {

pub const SETTINGS_HEAD: &'static str =
    "<?xml version=\"1.0\" encoding=\"UTF-8\"?>\n<scan:ScanSettings xmlns:scan=\"http://schemas.hp.com/imaging/escl/2011/05/03\" xmlns:pwg=\"http://www.pwg.org/schemas/2010/12/sm\">\n    <pwg:Version>2.6</pwg:Version>\n    <pwg:ScanRegions>\n        <pwg:ScanRegion>\n            <pwg:Height>";

pub const SETTINGS_AFTER_HEIGHT: &'static str = "</pwg:Height>\n            <pwg:Width>";

pub const SETTINGS_AFTER_WIDTH: &'static str =
    "</pwg:Width>\n            <pwg:XOffset>0</pwg:XOffset>\n            <pwg:YOffset>0</pwg:YOffset>\n        </pwg:ScanRegion>\n    </pwg:ScanRegions>\n    <scan:DocumentFormatExt>image/jpeg</scan:DocumentFormatExt>\n    <pwg:InputSource>";

pub const SETTINGS_AFTER_SOURCE: &'static str = "</pwg:InputSource>\n    <scan:XResolution>";

pub const SETTINGS_AFTER_X: &'static str = "</scan:XResolution>\n    <scan:YResolution>";

pub const SETTINGS_AFTER_Y: &'static str = "</scan:YResolution>\n    <scan:ColorMode>";

pub const SETTINGS_TAIL: &'static str = "</scan:ColorMode>\n</scan:ScanSettings>";

/// The name of the unit that a source is scanned from.
pub open spec fn input_source_name(source: ScanSource) -> Seq<char> {
    match source {
        ScanSource::Flatbed => "Platen"@,
        ScanSource::Adf => "Feeder"@,
        ScanSource::AdfDuplex => "Feeder"@,
    }
}

/// A length of the scan region: millimetres times dots per inch, by 25.
pub open spec fn region_units(dim_mm: u32, dpi: u32) -> nat {
    ((dim_mm as nat) * (dpi as nat)) / 25
}

/// The scan settings document for a request: the whole page as the scan
/// region, JPEG as the format, then input source, resolution in both
/// directions and color mode.
pub open spec fn scan_settings_xml(config: ScanConfig) -> Seq<char> {
    SETTINGS_HEAD@ + decimal(region_units(config.page_size.height_mm, config.dpi))
        + SETTINGS_AFTER_HEIGHT@ + decimal(region_units(config.page_size.width_mm, config.dpi))
        + SETTINGS_AFTER_WIDTH@ + input_source_name(config.source) + SETTINGS_AFTER_SOURCE@
        + decimal(config.dpi as nat) + SETTINGS_AFTER_X@ + decimal(config.dpi as nat)
        + SETTINGS_AFTER_Y@ + protocol_name(config.color_mode) + SETTINGS_TAIL@
}

pub fn input_source(source: ScanSource) -> (name: &'static str)
    ensures
        name@ == input_source_name(source),
{
    match source {
        ScanSource::Flatbed => "Platen",
        ScanSource::Adf => "Feeder",
        ScanSource::AdfDuplex => "Feeder",
    }
}

fn region(dim_mm: u32, dpi: u32) -> (units: u64)
    ensures
        units == region_units(dim_mm, dpi),
{
    assert((dim_mm as nat) * (dpi as nat) <= 0xffff_ffff * 0xffff_ffff) by (nonlinear_arith)
        requires
            dim_mm <= 0xffff_ffff,
            dpi <= 0xffff_ffff,
    ;
    (dim_mm as u64) * (dpi as u64) / 25
}

/// Writes the scan settings document for a request.
pub fn create_scan_settings_xml(config: &ScanConfig) -> (xml: String)
    ensures
        xml@ == scan_settings_xml(*config),
{
    let mut xml = String::from_str(SETTINGS_HEAD);
    append_decimal(&mut xml, region(config.page_size.height_mm, config.dpi));
    xml.append(SETTINGS_AFTER_HEIGHT);
    append_decimal(&mut xml, region(config.page_size.width_mm, config.dpi));
    xml.append(SETTINGS_AFTER_WIDTH);
    xml.append(input_source(config.source));
    xml.append(SETTINGS_AFTER_SOURCE);
    append_decimal(&mut xml, config.dpi as u64);
    xml.append(SETTINGS_AFTER_X);
    append_decimal(&mut xml, config.dpi as u64);
    xml.append(SETTINGS_AFTER_Y);
    xml.append(color_mode_name(config.color_mode));
    xml.append(SETTINGS_TAIL);
    xml
}

} // verus!
