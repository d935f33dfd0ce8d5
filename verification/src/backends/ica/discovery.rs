//! What the tools of the system print, read for scanners: the printer
//! listing and the USB listing of the system profiler, the I/O registry,
//! the device list of `scanimage`, and the printer addresses of `lpstat`.

use crate::backends::ica::{
    numbered_device_id, numbered_device_id_of, tool_device_id, tool_device_id_of, tool_device_name,
};
use crate::models::{Backend, ScannerInfo, ScannerInfoView};
use crate::text::{
    byte_len, char_is_space, chars_of, contains_text, ends_in, ends_with, find_from, find_last,
    first_occurrence, is_space, last_occurrence, lines_of, lowercase, occurs_at, occurs_in,
    replace_char, replace_text, replaced, replaced_text, same_text, space_lead, split_lines,
    starts_with, text_between, text_from, texts, to_lowercase, to_uppercase, trim, trim_end_char,
    trimmed, trimmed_end, uppercase, without_prefix,
};
use vstd::prelude::*;
use vstd::utf8::encode_utf8;

verus! {

/// Where the reading of a printer listing stands: the printer whose entry
/// is being read, whether the entry said that it can scan, and the
/// printers that were found to scan.
pub struct PrinterScan {
    pub current: Seq<char>,
    pub supports: bool,
    pub found: Seq<Seq<char>>,
}

/// The line is the heading of a printer's entry: it ends with a colon and
/// is neither the heading of the listing nor a status line.
pub open spec fn is_printer_heading(line: Seq<char>) -> bool {
    ends_in(line, ":"@) && !occurs_in(line, "Printers:"@) && !occurs_in(line, "Status:"@)
}

impl PrinterScan {
    pub open spec fn start() -> PrinterScan {
        PrinterScan { current: Seq::empty(), supports: false, found: Seq::empty() }
    }

    /// The printers found, with the one whose entry is being read where it
    /// can scan.
    pub open spec fn flushed(self) -> Seq<Seq<char>> {
        if self.current.len() > 0 && self.supports {
            self.found.push(self.current)
        } else {
            self.found
        }
    }

    /// One more line is read. A heading ends the entry before it and
    /// starts the entry of the printer that it names; a line that says so
    /// marks the printer as one that scans.
    pub open spec fn line(self, raw: Seq<char>) -> PrinterScan {
        let line = trimmed(raw);
        let headed = if is_printer_heading(line) {
            PrinterScan { current: trimmed_end(line, ':'), supports: false, found: self.flushed() }
        } else {
            self
        };
        PrinterScan {
            supports: headed.supports || occurs_in(line, "Scanning support: Yes"@),
            ..headed
        }
    }
}

pub open spec fn printers_after(lines: Seq<Seq<char>>) -> PrinterScan
    decreases lines.len(),
{
    if lines.len() == 0 {
        PrinterScan::start()
    } else {
        printers_after(lines.drop_last()).line(lines.last())
    }
}

/// The names of the printers that a printer listing shows to scan, in the
/// order of the listing.
pub open spec fn scanning_printers_of(listing: Seq<char>) -> Seq<Seq<char>> {
    printers_after(lines_of(listing)).flushed()
}

/// Reads the printers that scan from the printer listing of the system
/// profiler.
pub fn scanning_printers(listing: &str) -> (names: Vec<String>)
    ensures
        texts(names@) == scanning_printers_of(listing@),
{
    let lines = split_lines(listing);
    let mut current = String::new();
    let mut supports = false;
    let mut found: Vec<String> = Vec::new();
    let mut i: usize = 0;
    assert(texts(lines@).take(0) =~= Seq::<Seq<char>>::empty());
    assert(texts(found@) =~= Seq::<Seq<char>>::empty());
    while i < lines.len()
        invariant
            i <= lines@.len(),
            texts(lines@) == lines_of(listing@),
            printers_after(texts(lines@).take(i as int)) == (PrinterScan {
                current: current@,
                supports,
                found: texts(found@),
            }),
        decreases lines@.len() - i,
    {
        proof {
            let next = texts(lines@).take(i + 1);
            assert(next.drop_last() =~= texts(lines@).take(i as int));
            assert(next.last() == lines@[i as int]@);
        }
        let line = trim(lines[i].as_str());
        if ends_with(line.as_str(), ":") && !contains_text(line.as_str(), "Printers:")
            && !contains_text(line.as_str(), "Status:") {
            if current.unicode_len() > 0 && supports {
                let ghost before = found@;
                found.push(current);
                assert(texts(found@) =~= texts(before).push(current@));
            }
            current = trim_end_char(line.as_str(), ':');
            supports = false;
        }
        if contains_text(line.as_str(), "Scanning support: Yes") {
            supports = true;
        }
        i = i + 1;
    }
    assert(texts(lines@).take(i as int) =~= texts(lines@));
    if current.unicode_len() > 0 && supports {
        let ghost before = found@;
        found.push(current);
        assert(texts(found@) =~= texts(before).push(current@));
    }
    found
}

pub open spec fn info_views(list: Seq<ScannerInfo>) -> Seq<ScannerInfoView> {
    list.map_values(|i: ScannerInfo| i@)
}

/// The first position of a one-character pattern, as a place in the line.
pub open spec fn first_at(line: Seq<char>, pattern: Seq<char>) -> Option<int> {
    first_occurrence(line, pattern, 0)
}

/// The name of the device that a line of the I/O registry is about: what
/// stands between its first and its last double quote, or the line without
/// the white space at its ends where it has no two of them.
pub open spec fn registry_name(line: Seq<char>) -> Seq<char> {
    match (first_at(line, "\""@), last_occurrence(line, "\""@, line.len() as int)) {
        (Some(a), Some(b)) => if a < b && b <= line.len() {
            line.subrange(a + 1, b)
        } else {
            trimmed(line)
        },
        _ => trimmed(line),
    }
}

/// One more line of the I/O registry is read: a line that names a scanner
/// or an imaging device gives a scanner, unless the name is empty or takes
/// three bytes or less.
pub open spec fn registry_line(found: Seq<ScannerInfoView>, line: Seq<char>) -> Seq<
    ScannerInfoView,
> {
    let name = registry_name(line);
    if (occurs_in(line, "Scanner"@) || occurs_in(line, "Imaging"@)) && encode_utf8(name).len() > 3 {
        found.push(
            ScannerInfoView {
                id: numbered_device_id_of("ioreg_scanner"@, found.len() as u64),
                name,
                backend: Backend::Ica,
            },
        )
    } else {
        found
    }
}

pub open spec fn registry_after(lines: Seq<Seq<char>>) -> Seq<ScannerInfoView>
    decreases lines.len(),
{
    if lines.len() == 0 {
        Seq::empty()
    } else {
        registry_line(registry_after(lines.drop_last()), lines.last())
    }
}

/// The scanners that a listing of the I/O registry shows.
pub open spec fn registry_scanners_of(listing: Seq<char>) -> Seq<ScannerInfoView> {
    registry_after(lines_of(listing))
}

fn read_registry_name(line: &str) -> (name: String)
    ensures
        name@ == registry_name(line@),
{
    let chars = chars_of(line);
    let quote = chars_of("\"");
    match find_from(&chars, &quote, 0) {
        Some(a) => match find_last(&chars, &quote) {
            Some(b) => {
                if a < b {
                    text_between(&chars, a + 1, b)
                } else {
                    trim(line)
                }
            },
            None => trim(line),
        },
        None => trim(line),
    }
}

/// Reads the scanners from a listing of the I/O registry.
pub fn registry_scanners(listing: &str) -> (found: Vec<ScannerInfo>)
    ensures
        info_views(found@) == registry_scanners_of(listing@),
{
    let lines = split_lines(listing);
    let mut found: Vec<ScannerInfo> = Vec::new();
    let mut i: usize = 0;
    assert(texts(lines@).take(0) =~= Seq::<Seq<char>>::empty());
    assert(info_views(found@) =~= Seq::<ScannerInfoView>::empty());
    while i < lines.len()
        invariant
            i <= lines@.len(),
            texts(lines@) == lines_of(listing@),
            registry_after(texts(lines@).take(i as int)) == info_views(found@),
        decreases lines@.len() - i,
    {
        proof {
            let next = texts(lines@).take(i + 1);
            assert(next.drop_last() =~= texts(lines@).take(i as int));
            assert(next.last() == lines@[i as int]@);
        }
        let line = lines[i].as_str();
        if contains_text(line, "Scanner") || contains_text(line, "Imaging") {
            let name = read_registry_name(line);
            if byte_len(name.as_str()) > 3 {
                let ghost before = found@;
                let info = ScannerInfo {
                    id: numbered_device_id("ioreg_scanner", found.len() as u64),
                    name,
                    backend: Backend::Ica,
                };
                found.push(info);
                assert(info_views(found@) =~= info_views(before).push(info@));
            }
        }
        i = i + 1;
    }
    assert(texts(lines@).take(i as int) =~= texts(lines@));
    found
}

/// The device that a line of the device list of `scanimage` names:
/// between the backquote and the quote of a line that starts with
/// `device ` stands the name under which the tool knows the device, a
/// colon, and the model.
pub open spec fn listed_device(line: Seq<char>) -> Option<ScannerInfoView> {
    if !occurs_at(line, "device "@, 0) {
        None
    } else {
        match (first_at(line, "`"@), first_at(line, "'"@)) {
            (Some(a), Some(b)) => if a < b && b <= line.len() {
                let spec = line.subrange(a + 1, b);
                match first_at(spec, ":"@) {
                    Some(colon) => if 0 <= colon < spec.len() {
                        Some(
                            ScannerInfoView {
                                id: tool_device_id_of(spec.take(colon)),
                                name: spec.skip(colon + 1),
                                backend: Backend::Ica,
                            },
                        )
                    } else {
                        None
                    },
                    None => None,
                }
            } else {
                None
            },
            _ => None,
        }
    }
}

pub open spec fn listed_after(lines: Seq<Seq<char>>) -> Seq<ScannerInfoView>
    decreases lines.len(),
{
    if lines.len() == 0 {
        Seq::empty()
    } else {
        match listed_device(lines.last()) {
            Some(info) => listed_after(lines.drop_last()).push(info),
            None => listed_after(lines.drop_last()),
        }
    }
}

/// The scanners that the device list of `scanimage` shows.
pub open spec fn tool_scanners_of(listing: Seq<char>) -> Seq<ScannerInfoView> {
    listed_after(lines_of(listing))
}

pub open spec fn info_view(info: Option<ScannerInfo>) -> Option<ScannerInfoView> {
    match info {
        Some(i) => Some(i@),
        None => None,
    }
}

fn read_listed_device(line: &str) -> (info: Option<ScannerInfo>)
    ensures
        info_view(info) == listed_device(line@),
{
    if !starts_with(line, "device ") {
        return None;
    }
    let chars = chars_of(line);
    let open = chars_of("`");
    let close = chars_of("'");
    let colon = chars_of(":");
    match (find_from(&chars, &open, 0), find_from(&chars, &close, 0)) {
        (Some(a), Some(b)) => {
            if a < b {
                let spec = text_between(&chars, a + 1, b);
                let spec_chars = chars_of(spec.as_str());
                match find_from(&spec_chars, &colon, 0) {
                    Some(at) => {
                        if at < spec_chars.len() {
                            let id_part = text_between(&spec_chars, 0, at);
                            assert(id_part@ =~= spec@.take(at as int));
                            Some(
                                ScannerInfo {
                                    id: tool_device_id(id_part.as_str()),
                                    name: text_from(&spec_chars, at + 1),
                                    backend: Backend::Ica,
                                },
                            )
                        } else {
                            None
                        }
                    },
                    None => None,
                }
            } else {
                None
            }
        },
        _ => None,
    }
}

/// Reads the scanners from the device list of `scanimage`.
pub fn tool_scanners(listing: &str) -> (found: Vec<ScannerInfo>)
    ensures
        info_views(found@) == tool_scanners_of(listing@),
{
    let lines = split_lines(listing);
    let mut found: Vec<ScannerInfo> = Vec::new();
    let mut i: usize = 0;
    assert(texts(lines@).take(0) =~= Seq::<Seq<char>>::empty());
    assert(info_views(found@) =~= Seq::<ScannerInfoView>::empty());
    while i < lines.len()
        invariant
            i <= lines@.len(),
            texts(lines@) == lines_of(listing@),
            listed_after(texts(lines@).take(i as int)) == info_views(found@),
        decreases lines@.len() - i,
    {
        proof {
            let next = texts(lines@).take(i + 1);
            assert(next.drop_last() =~= texts(lines@).take(i as int));
            assert(next.last() == lines@[i as int]@);
        }
        match read_listed_device(lines[i].as_str()) {
            Some(info) => {
                let ghost before = found@;
                found.push(info);
                assert(info_views(found@) =~= info_views(before).push(info@));
            },
            None => {},
        }
        i = i + 1;
    }
    assert(texts(lines@).take(i as int) =~= texts(lines@));
    found
}

/// A text in lower case holds one of the words by which the description
/// of a USB device is taken for that of a scanner.
pub open spec fn holds_scanner_word(lower: Seq<char>) -> bool {
    ||| occurs_in(lower, "scanner"@)
    ||| occurs_in(lower, "scan"@)
    ||| occurs_in(lower, "multifunction"@)
    ||| occurs_in(lower, "all-in-one"@)
    ||| occurs_in(lower, "mfp"@)
    ||| occurs_in(lower, "laserjet"@)
    ||| occurs_in(lower, "hp"@)
    ||| occurs_in(lower, "canon"@)
    ||| occurs_in(lower, "epson"@)
    ||| occurs_in(lower, "brother"@)
}

/// The text reads like the description of a scanner, whatever its case.
pub open spec fn reads_like_scanner(text: Seq<char>) -> bool {
    holds_scanner_word(lowercase(text))
}

/// Tells whether a text in lower case holds a word that speaks of a
/// scanner.
pub fn has_scanner_word(lower: &str) -> (holds: bool)
    ensures
        holds == holds_scanner_word(lower@),
{
    contains_text(lower, "scanner") || contains_text(lower, "scan") || contains_text(
        lower,
        "multifunction",
    ) || contains_text(lower, "all-in-one") || contains_text(lower, "mfp") || contains_text(
        lower,
        "laserjet",
    ) || contains_text(lower, "hp") || contains_text(lower, "canon") || contains_text(
        lower,
        "epson",
    ) || contains_text(lower, "brother")
}

fn looks_like_scanner(text: &str) -> (like: bool)
    ensures
        like == reads_like_scanner(text@),
{
    let lower = to_lowercase(text);
    has_scanner_word(lower.as_str())
}

/// Some scanner of the list has the name.
pub open spec fn has_name(found: Seq<ScannerInfoView>, name: Seq<char>) -> bool {
    exists|k: int| 0 <= k < found.len() && (#[trigger] found[k]).name == name
}

/// The line is a field of a device's entry, which names no device.
pub open spec fn is_usb_field(line: Seq<char>) -> bool {
    occurs_in(line, "Product ID"@) || occurs_in(line, "Vendor ID"@)
}

/// The name that a line gives: the line without the colons at its end
/// where it ends with a colon.
pub open spec fn line_name(line: Seq<char>) -> Seq<char> {
    if ends_in(line, ":"@) {
        trimmed_end(line, ':')
    } else {
        line
    }
}

/// One more line of the USB listing is read. The heading of an entry that
/// reads like a scanner's gives a scanner; and so does any line of more
/// than ten bytes that reads like a scanner's and is no field, unless a
/// scanner of its name is listed.
pub open spec fn usb_line(found: Seq<ScannerInfoView>, raw: Seq<char>) -> Seq<ScannerInfoView> {
    let line = trimmed(raw);
    let headed = if ends_in(line, ":"@) && !is_usb_field(line) && reads_like_scanner(
        trimmed_end(line, ':'),
    ) {
        found.push(
            ScannerInfoView {
                id: numbered_device_id_of("usb"@, found.len() as u64),
                name: trimmed_end(line, ':'),
                backend: Backend::Ica,
            },
        )
    } else {
        found
    };
    if reads_like_scanner(line) && !is_usb_field(line) && encode_utf8(line).len() > 10 && !has_name(
        headed,
        line_name(line),
    ) {
        headed.push(
            ScannerInfoView {
                id: numbered_device_id_of("detected"@, headed.len() as u64),
                name: line_name(line),
                backend: Backend::Ica,
            },
        )
    } else {
        headed
    }
}

pub open spec fn usb_after(lines: Seq<Seq<char>>) -> Seq<ScannerInfoView>
    decreases lines.len(),
{
    if lines.len() == 0 {
        Seq::empty()
    } else {
        usb_line(usb_after(lines.drop_last()), lines.last())
    }
}

/// The scanners that the USB listing of the system profiler shows.
pub open spec fn usb_scanners_of(listing: Seq<char>) -> Seq<ScannerInfoView> {
    usb_after(lines_of(listing))
}

fn lists_name(found: &Vec<ScannerInfo>, name: &str) -> (listed: bool)
    ensures
        listed == has_name(info_views(found@), name@),
{
    let mut i: usize = 0;
    while i < found.len()
        invariant
            i <= found@.len(),
            forall|k: int| 0 <= k < i ==> found@[k].name@ != name@,
        decreases found@.len() - i,
    {
        if same_text(found[i].name.as_str(), name) {
            assert(info_views(found@)[i as int].name == name@);
            return true;
        }
        i = i + 1;
    }
    proof {
        let views = info_views(found@);
        if has_name(views, name@) {
            let k = choose|k: int| 0 <= k < views.len() && (#[trigger] views[k]).name == name@;
            assert(found@[k].name@ == name@);
        }
    }
    false
}

/// Reads the scanners from the USB listing of the system profiler.
pub fn usb_scanners(listing: &str) -> (found: Vec<ScannerInfo>)
    ensures
        info_views(found@) == usb_scanners_of(listing@),
{
    let lines = split_lines(listing);
    let mut found: Vec<ScannerInfo> = Vec::new();
    let mut i: usize = 0;
    assert(texts(lines@).take(0) =~= Seq::<Seq<char>>::empty());
    assert(info_views(found@) =~= Seq::<ScannerInfoView>::empty());
    while i < lines.len()
        invariant
            i <= lines@.len(),
            texts(lines@) == lines_of(listing@),
            usb_after(texts(lines@).take(i as int)) == info_views(found@),
        decreases lines@.len() - i,
    {
        proof {
            let next = texts(lines@).take(i + 1);
            assert(next.drop_last() =~= texts(lines@).take(i as int));
            assert(next.last() == lines@[i as int]@);
        }
        let line = trim(lines[i].as_str());
        let is_field = contains_text(line.as_str(), "Product ID") || contains_text(
            line.as_str(),
            "Vendor ID",
        );
        let heading = ends_with(line.as_str(), ":");
        if heading && !is_field {
            let device = trim_end_char(line.as_str(), ':');
            if looks_like_scanner(device.as_str()) {
                let ghost before = found@;
                let info = ScannerInfo {
                    id: numbered_device_id("usb", found.len() as u64),
                    name: device,
                    backend: Backend::Ica,
                };
                found.push(info);
                assert(info_views(found@) =~= info_views(before).push(info@));
            }
        }
        if looks_like_scanner(line.as_str()) && !is_field && byte_len(line.as_str()) > 10 {
            let name = if heading {
                trim_end_char(line.as_str(), ':')
            } else {
                line
            };
            if !lists_name(&found, name.as_str()) {
                let ghost before = found@;
                let info = ScannerInfo {
                    id: numbered_device_id("detected", found.len() as u64),
                    name,
                    backend: Backend::Ica,
                };
                found.push(info);
                assert(info_views(found@) =~= info_views(before).push(info@));
            }
        }
        i = i + 1;
    }
    assert(texts(lines@).take(i as int) =~= texts(lines@));
    found
}

/// The host of a printer on IPP over USB, from its line in the printer
/// addresses: what stands between `ippusb://` and the next slash, with
/// spaces and square brackets for their escapes. Only the lines of HP
/// printers are read.
pub open spec fn ippusb_host_of(line: Seq<char>) -> Option<Seq<char>> {
    if !(occurs_in(line, "ippusb://"@) && occurs_in(line, "HP"@)) {
        None
    } else {
        match first_at(line, "ippusb://"@) {
            Some(start) => if 0 <= start && start + "ippusb://"@.len() <= line.len() {
                let rest = line.skip(start + "ippusb://"@.len());
                match first_at(rest, "/"@) {
                    Some(end) => if 0 <= end <= rest.len() {
                        Some(
                            replaced_text(
                                replaced_text(replaced_text(rest.take(end), "%20"@, " "@), "%5B"@, "["@),
                                "%5D"@,
                                "]"@,
                            ),
                        )
                    } else {
                        None
                    },
                    None => None,
                }
            } else {
                None
            },
            None => None,
        }
    }
}

pub open spec fn text_view(text: Option<String>) -> Option<Seq<char>> {
    match text {
        Some(t) => Some(t@),
        None => None,
    }
}

pub fn ippusb_host(line: &str) -> (host: Option<String>)
    ensures
        text_view(host) == ippusb_host_of(line@),
{
    if !(contains_text(line, "ippusb://") && contains_text(line, "HP")) {
        return None;
    }
    let chars = chars_of(line);
    let scheme = chars_of("ippusb://");
    let slash = chars_of("/");
    match find_from(&chars, &scheme, 0) {
        Some(start) => {
            let total = chars.len();
            assert(start + scheme@.len() <= total);
            let rest = text_from(&chars, start + scheme.len());
            let rest_chars = chars_of(rest.as_str());
            match find_from(&rest_chars, &slash, 0) {
                Some(end) => {
                    let raw = text_between(&rest_chars, 0, end);
                    assert(raw@ =~= rest@.take(end as int));
                    let spaced = replace_text(raw.as_str(), "%20", " ");
                    let opened = replace_text(spaced.as_str(), "%5B", "[");
                    Some(replace_text(opened.as_str(), "%5D", "]"))
                },
                None => None,
            }
        },
        None => None,
    }
}

/// The address of a printer on IPP over USB, from its line in the printer
/// addresses: from `ippusb://` up to `?uuid=`, on a line that names the
/// device.
pub open spec fn ippusb_url_of(line: Seq<char>, device_name: Seq<char>) -> Option<Seq<char>> {
    if !(occurs_in(line, device_name) && occurs_in(line, "ippusb://"@)) {
        None
    } else {
        match (first_at(line, "ippusb://"@), first_at(line, "?uuid="@)) {
            (Some(a), Some(b)) => if 0 <= a <= b <= line.len() {
                Some(line.subrange(a, b))
            } else {
                None
            },
            _ => None,
        }
    }
}

pub fn ippusb_url(line: &str, device_name: &str) -> (url: Option<String>)
    ensures
        text_view(url) == ippusb_url_of(line@, device_name@),
{
    if !(contains_text(line, device_name) && contains_text(line, "ippusb://")) {
        return None;
    }
    let chars = chars_of(line);
    let scheme = chars_of("ippusb://");
    let mark = chars_of("?uuid=");
    match (find_from(&chars, &scheme, 0), find_from(&chars, &mark, 0)) {
        (Some(a), Some(b)) => {
            if a <= b {
                Some(text_between(&chars, a, b))
            } else {
                None
            }
        },
        _ => None,
    }
}

/// The first of the lines that starts with `Location:`.
pub open spec fn location_line(lines: Seq<Seq<char>>, from: int) -> Option<Seq<char>>
    decreases lines.len() - from,
{
    if from < 0 || from >= lines.len() {
        None
    } else if occurs_at(lines[from], "Location:"@, 0) {
        Some(lines[from])
    } else {
        location_line(lines, from + 1)
    }
}

/// The address of the job that a reply with its headers names: what the
/// first `Location` line holds besides `Location: `, without the white
/// space at its ends.
pub open spec fn job_location_of(reply: Seq<char>) -> Option<Seq<char>> {
    match location_line(lines_of(reply), 0) {
        Some(line) => Some(trimmed(replaced_text(line, "Location: "@, Seq::empty()))),
        None => None,
    }
}

pub fn job_location(reply: &str) -> (location: Option<String>)
    ensures
        text_view(location) == job_location_of(reply@),
{
    let lines = split_lines(reply);
    let mut i: usize = 0;
    while i < lines.len()
        invariant
            i <= lines@.len(),
            texts(lines@) == lines_of(reply@),
            location_line(texts(lines@), i as int) == location_line(texts(lines@), 0),
        decreases lines@.len() - i,
    {
        if starts_with(lines[i].as_str(), "Location:") {
            proof {
                reveal_strlit("");
                assert(""@ =~= Seq::<char>::empty());
            }
            let rest = replace_text(lines[i].as_str(), "Location: ", "");
            return Some(trim(rest.as_str()));
        }
        i = i + 1;
    }
    None
}

/// A name in lower case without its spaces.
pub open spec fn bare_name(lower: Seq<char>) -> Seq<char> {
    replaced_text(lower, " "@, Seq::empty())
}

/// A name in lower case as a framework shows it, cut before its first
/// bracket, without its spaces.
pub open spec fn bare_shown_name(lower: Seq<char>) -> Seq<char> {
    let head = match first_at(lower, "("@) {
        Some(at) => if 0 <= at <= lower.len() {
            lower.take(at)
        } else {
            lower
        },
        None => lower,
    };
    replaced_text(head, " "@, Seq::empty())
}

/// Two names in lower case agree: one of them, without its spaces, stands
/// in the other; of the name that a framework shows, only what stands
/// before its first bracket counts.
pub open spec fn lower_names_agree(target_lower: Seq<char>, shown_lower: Seq<char>) -> bool {
    occurs_in(bare_shown_name(shown_lower), bare_name(target_lower)) || occurs_in(
        bare_name(target_lower),
        bare_shown_name(shown_lower),
    )
}

/// A device that a framework shows under a name is the device of a name:
/// the names agree, whatever their case.
pub open spec fn names_agree(target: Seq<char>, shown: Seq<char>) -> bool {
    lower_names_agree(lowercase(target), lowercase(shown))
}

/// Tells whether two names in lower case agree.
pub fn lower_names_match(target_lower: &str, shown_lower: &str) -> (agree: bool)
    ensures
        agree == lower_names_agree(target_lower@, shown_lower@),
{
    proof {
        reveal_strlit("");
        assert(""@ =~= Seq::<char>::empty());
    }
    let target_clean = replace_text(target_lower, " ", "");
    let lower_chars = chars_of(shown_lower);
    let bracket = chars_of("(");
    let head = match find_from(&lower_chars, &bracket, 0) {
        Some(at) => {
            let head = text_between(&lower_chars, 0, at);
            assert(head@ =~= shown_lower@.take(at as int));
            head
        },
        None => String::from_str(shown_lower),
    };
    let shown_clean = replace_text(head.as_str(), " ", "");
    contains_text(shown_clean.as_str(), target_clean.as_str()) || contains_text(
        target_clean.as_str(),
        shown_clean.as_str(),
    )
}

/// Tells whether two names agree, whatever their case.
pub fn names_match(target: &str, shown: &str) -> (agree: bool)
    ensures
        agree == names_agree(target@, shown@),
{
    let target_lower = to_lowercase(target);
    let shown_lower = to_lowercase(shown);
    lower_names_match(target_lower.as_str(), shown_lower.as_str())
}

/// Where the word that starts at `from` ends: at the next white space, or
/// at the end of the text.
pub open spec fn word_end(text: Seq<char>, from: int) -> int
    decreases text.len() - from,
{
    if 0 <= from < text.len() && !is_space(text[from]) {
        word_end(text, from + 1)
    } else {
        from
    }
}

/// The words of a text from a position on: what stands between its white
/// space.
pub open spec fn words_from(text: Seq<char>, from: int) -> Seq<Seq<char>>
    decreases text.len() - from,
{
    let start = space_lead(text, from);
    let end = word_end(text, start);
    if 0 <= from <= start < end <= text.len() {
        seq![text.subrange(start, end)] + words_from(text, end)
    } else {
        Seq::empty()
    }
}

/// The words of a text.
pub open spec fn words_of(text: Seq<char>) -> Seq<Seq<char>> {
    words_from(text, 0)
}

/// Splits a text into its words.
pub fn split_words(text: &str) -> (words: Vec<String>)
    ensures
        texts(words@) == words_of(text@),
{
    let chars = chars_of(text);
    let total = chars.len();
    let mut words: Vec<String> = Vec::new();
    let mut at: usize = 0;
    assert(texts(words@) =~= Seq::<Seq<char>>::empty());
    assert(texts(words@) + words_from(chars@, 0) =~= words_of(text@));
    while at < total
        invariant
            chars@ == text@,
            total == chars@.len(),
            at <= total,
            texts(words@) + words_from(chars@, at as int) == words_of(text@),
        decreases total - at,
    {
        let mut start: usize = at;
        while start < total && char_is_space(chars[start])
            invariant
                total == chars@.len(),
                at <= start <= total,
                space_lead(chars@, start as int) == space_lead(chars@, at as int),
            decreases total - start,
        {
            start = start + 1;
        }
        let mut end: usize = start;
        while end < total && !char_is_space(chars[end])
            invariant
                total == chars@.len(),
                start <= end <= total,
                word_end(chars@, end as int) == word_end(chars@, start as int),
            decreases total - end,
        {
            end = end + 1;
        }
        if start == end {
            assert(words_from(chars@, at as int) =~= Seq::<Seq<char>>::empty());
            assert(words_from(chars@, total as int) =~= Seq::<Seq<char>>::empty());
            at = total;
        } else {
            let word = text_between(&chars, start, end);
            let ghost before = words@;
            words.push(word);
            proof {
                assert(texts(words@) =~= texts(before).push(word@));
                assert(texts(before).push(word@) + words_from(chars@, end as int) =~= texts(before)
                    + (seq![word@] + words_from(chars@, end as int)));
            }
            at = end;
        }
    }
    assert(texts(words@) + Seq::<Seq<char>>::empty() =~= texts(words@));
    words
}

/// The words with one space between them.
pub open spec fn joined(words: Seq<Seq<char>>) -> Seq<char>
    decreases words.len(),
{
    if words.len() == 0 {
        Seq::empty()
    } else if words.len() == 1 {
        words[0]
    } else {
        joined(words.drop_last()) + seq![' '] + words.last()
    }
}

/// Joins words with one space between them.
pub fn join_words(words: &Vec<String>) -> (text: String)
    ensures
        text@ == joined(texts(words@)),
{
    proof {
        reveal_strlit(" ");
        assert(" "@ =~= seq![' ']);
    }
    let ghost views = texts(words@);
    let mut text = String::new();
    let mut i: usize = 0;
    assert(views.take(0) =~= Seq::<Seq<char>>::empty());
    while i < words.len()
        invariant
            i <= words@.len(),
            views == texts(words@),
            " "@ == seq![' '],
            text@ == joined(views.take(i as int)),
        decreases words@.len() - i,
    {
        proof {
            let next = views.take(i + 1);
            assert(next.drop_last() =~= views.take(i as int));
            assert(next.last() == words@[i as int]@);
        }
        if i > 0 {
            text.append(" ");
        }
        text.append(words[i].as_str());
        proof {
            if i == 0 {
                assert(text@ =~= words@[0]@);
            } else {
                assert(text@ =~= joined(views.take(i as int)) + seq![' '] + words@[i as int]@);
            }
        }
        i = i + 1;
    }
    assert(views.take(i as int) =~= views);
    text
}

/// A word with its first letter in upper case and the others in lower
/// case.
pub open spec fn capitalized(word: Seq<char>) -> Seq<char> {
    if word.len() == 0 {
        word
    } else {
        uppercase(word.take(1)) + lowercase(word.skip(1))
    }
}

/// The name to show for a device of which only the identifier is known:
/// the identifier without `ica_` at its start, its underscores taken for
/// spaces, and every word capitalized.
pub open spec fn shown_name_of(device_id: Seq<char>) -> Seq<char> {
    joined(capitalized_all(words_of(replaced(without_prefix(device_id, "ica_"@), '_', ' '))))
}

/// The words, each capitalized.
pub open spec fn capitalized_all(words: Seq<Seq<char>>) -> Seq<Seq<char>> {
    Seq::new(words.len(), |i: int| capitalized(words[i]))
}

fn capitalize(word: &str) -> (out: String)
    ensures
        out@ == capitalized(word@),
{
    let chars = chars_of(word);
    if chars.len() == 0 {
        return String::from_str(word);
    }
    let first = text_between(&chars, 0, 1);
    let rest = text_from(&chars, 1);
    assert(first@ =~= word@.take(1));
    let mut out = to_uppercase(first.as_str());
    let lower = to_lowercase(rest.as_str());
    out.append(lower.as_str());
    out
}

/// Makes a name to show from an identifier.
pub fn shown_name(device_id: &str) -> (name: String)
    ensures
        name@ == shown_name_of(device_id@),
{
    let plain = tool_device_name(device_id);
    let spaced = replace_char(plain.as_str(), '_', ' ');
    let words = split_words(spaced.as_str());
    let ghost raw = texts(words@);
    let mut shown: Vec<String> = Vec::new();
    let mut i: usize = 0;
    assert(texts(shown@) =~= capitalized_all(raw.take(0)));
    while i < words.len()
        invariant
            i <= words@.len(),
            raw == texts(words@),
            texts(shown@) == capitalized_all(raw.take(i as int)),
        decreases words@.len() - i,
    {
        let ghost before = shown@;
        let word = capitalize(words[i].as_str());
        shown.push(word);
        proof {
            assert(texts(shown@) =~= texts(before).push(word@));
            assert(raw.take(i + 1) =~= raw.take(i as int).push(raw[i as int]));
            assert(texts(shown@) =~= capitalized_all(raw.take(i + 1)));
        }
        i = i + 1;
    }
    assert(raw.take(i as int) =~= raw);
    join_words(&shown)
}

} // verus!
