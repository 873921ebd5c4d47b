//! Finding the GPU's device id and its marketing name: picking the display
//! adapter among the system's signed drivers, cutting the device id out of a
//! hardware id, and looking the id up in the PCI id list.
use crate::text::{
    after_last, after_last_of, ascii_lowercase, before_first, between, lines_from, split_lines, strings_view,
    to_ascii_lowercase,
};
use crate::xml::same_text;
use regex::Regex;
use vstd::prelude::*;

verus! {

/// The fields of one signed-driver record that the lookup reads.
#[derive(Clone, Debug)]
pub struct PnpDriver {
    pub hardware_id: Option<String>,
    pub device_class: Option<String>,
    pub device_name: Option<String>,
}

/// The record belongs to a display adapter.
pub open spec fn is_display(d: PnpDriver) -> bool {
    (d.device_class matches Some(c) && c@ == "DISPLAY"@) || (d.device_name matches Some(n) && n@
        == "3D Video Controller"@)
}

/// The device id in a hardware id such as `PCI\VEN_10DE&DEV_2204&SUBSYS_...`:
/// what follows the last `DEV_`, up to the next `&`, in small letters.
pub open spec fn spec_device_id(hardware_id: Seq<char>) -> Seq<char> {
    ascii_lowercase(before_first(after_last(hardware_id, "DEV_"@), '&'))
}

/// Cuts the device id out of a hardware id (`...DEV_2204&...` gives `2204`).
pub fn device_id_from_hardware_id(hardware_id: &str) -> (r: String)
    ensures
        r@ == spec_device_id(hardware_id@),
{
    let id = between(hardware_id, "DEV_", '&');
    to_ascii_lowercase(id.as_str())
}

/// The device id of the first display adapter record (from `i` on) that has a
/// hardware id.
pub open spec fn spec_gpu_id_from(drivers: Seq<PnpDriver>, i: int) -> Option<Seq<char>>
    decreases drivers.len() - i,
{
    if i >= drivers.len() {
        None
    } else if is_display(drivers[i]) && drivers[i].hardware_id is Some {
        Some(spec_device_id(drivers[i].hardware_id->0@))
    } else {
        spec_gpu_id_from(drivers, i + 1)
    }
}

fn text_is(s: &Option<String>, expected: &str) -> (r: bool)
    ensures
        r == (s matches Some(t) && t@ == expected@),
{
    match s {
        Some(t) => same_text(t.as_str(), expected),
        None => false,
    }
}

/// The device id of the first display adapter among the records that has a
/// hardware id; `None` when there is no such record.
pub fn gpu_id_from_drivers(drivers: &Vec<PnpDriver>) -> (r: Option<String>)
    ensures
        r matches Some(s) ==> spec_gpu_id_from(drivers@, 0) == Some(s@),
        r is None ==> spec_gpu_id_from(drivers@, 0) is None,
{
    let mut i: usize = 0;
    while i < drivers.len()
        invariant
            i <= drivers@.len(),
            spec_gpu_id_from(drivers@, 0) == spec_gpu_id_from(drivers@, i as int),
        decreases drivers@.len() - i,
    {
        let d = &drivers[i];
        let display = text_is(&d.device_class, "DISPLAY") || text_is(
            &d.device_name,
            "3D Video Controller",
        );
        if display {
            if let Some(hwid) = &d.hardware_id {
                return Some(device_id_from_hardware_id(hwid.as_str()));
            }
        }
        i = i + 1;
    }
    None
}

/// The device id in a registry `MatchingDeviceId` such as
/// `pci\ven_10de&dev_2204`: what follows the last `dev_`.
pub fn device_id_from_matching_id(matching_id: &str) -> (r: String)
    ensures
        r@ == after_last(matching_id@, "dev_"@),
{
    after_last_of(matching_id, "dev_")
}

/// What the PCI id list's patterns found in one line that is not a comment.
#[derive(Clone, Debug)]
pub struct PciLine {
    /// The id of a vendor line (`10de  NVIDIA Corporation`).
    pub vendor: Option<String>,
    /// The id and name of a device line (tab, `2204  GA102 [GeForce RTX 3090]`).
    pub device: Option<(String, String)>,
}

/// A scanned line, as contracts see it.
pub ghost struct PciLineView {
    pub vendor: Option<Seq<char>>,
    pub device: Option<(Seq<char>, Seq<char>)>,
}

/// The texts of a pair of captured groups.
pub open spec fn groups_view(g: Option<(String, String)>) -> Option<(Seq<char>, Seq<char>)> {
    match g {
        Some(p) => Some((p.0@, p.1@)),
        None => None,
    }
}

impl View for PciLine {
    type V = PciLineView;

    open spec fn view(&self) -> PciLineView {
        PciLineView {
            vendor: match self.vendor {
                Some(id) => Some(id@),
                None => None,
            },
            device: groups_view(self.device),
        }
    }
}

/// The views of scanned lines.
pub open spec fn lines_view(lines: Seq<PciLine>) -> Seq<PciLineView> {
    lines.map_values(|l: PciLine| l@)
}

/// NVIDIA's PCI vendor id.
pub const NVIDIA_VENDOR: &'static str = "10de";

/// The marketing name in a device name: the text in its last brackets
/// (`GA102 [GeForce RTX 3090]` gives `GeForce RTX 3090`).
pub open spec fn bracket_name(name: Seq<char>) -> Seq<char> {
    before_first(after_last(name, "["@), ']')
}

/// Scans the lines from `i` on, with `vendor` the id of the latest vendor line
/// seen: the name of the first device with id `device_id` listed under NVIDIA.
pub open spec fn spec_find_device(
    lines: Seq<PciLineView>,
    device_id: Seq<char>,
    vendor: Seq<char>,
    i: int,
) -> Option<Seq<char>>
    decreases lines.len() - i,
{
    if i < 0 || i >= lines.len() {
        None
    } else {
        let v = match lines[i].vendor {
            Some(id) => id,
            None => vendor,
        };
        match lines[i].device {
            Some(d) => if v == NVIDIA_VENDOR@ && d.0 == device_id {
                Some(bracket_name(d.1))
            } else {
                spec_find_device(lines, device_id, v, i + 1)
            },
            None => spec_find_device(lines, device_id, v, i + 1),
        }
    }
}

/// The marketing name of the NVIDIA device `device_id` in the scanned lines of
/// the PCI id list; `None` when it is not listed under NVIDIA.
pub fn find_device_name(lines: &Vec<PciLine>, device_id: &str) -> (r: Option<String>)
    ensures
        r matches Some(s) ==> spec_find_device(lines_view(lines@), device_id@, Seq::empty(), 0)
            == Some(s@),
        r is None ==> spec_find_device(lines_view(lines@), device_id@, Seq::empty(), 0) is None,
{
    let mut vendor = String::new();
    let mut i: usize = 0;
    while i < lines.len()
        invariant
            i <= lines@.len(),
            spec_find_device(lines_view(lines@), device_id@, Seq::empty(), 0) == spec_find_device(
                lines_view(lines@),
                device_id@,
                vendor@,
                i as int,
            ),
        decreases lines@.len() - i,
    {
        let line = &lines[i];
        assert(lines_view(lines@)[i as int] == line@);
        if let Some(id) = &line.vendor {
            vendor = id.clone();
        }
        if same_text(vendor.as_str(), NVIDIA_VENDOR) {
            if let Some(d) = &line.device {
                if same_text(d.0.as_str(), device_id) {
                    return Some(between(d.1.as_str(), "[", ']'));
                }
            }
        }
        i = i + 1;
    }
    None
}

/// A vendor line of the PCI id list: four hex digits, two spaces, the name.
pub const VENDOR_PATTERN: &'static str = "^([0-9a-f]{4})  (.*)$";

/// A device line of the PCI id list: a tab, four hex digits, two spaces, the name.
pub const DEVICE_PATTERN: &'static str = "^\t([0-9a-f]{4})  (.*)$";

/// A digit or a small letter from `a` to `f`.
pub open spec fn is_lower_hex(c: char) -> bool {
    ('0' <= c && c <= '9') || ('a' <= c && c <= 'f')
}

/// What the pattern `^<prefix>([0-9a-f]{4})  (.*)$` captures from `text`: when
/// `text` is `prefix`, four characters among `0-9a-f`, two spaces and a rest
/// without a newline, the four characters and the rest; otherwise nothing.
pub open spec fn id_line_groups(prefix: Seq<char>, text: Seq<char>) -> Option<
    (Seq<char>, Seq<char>),
> {
    let p = prefix.len() as int;
    if text.len() >= p + 6 && text.subrange(0, p) == prefix && (forall|k: int|
        p <= k < p + 4 ==> is_lower_hex(#[trigger] text[k])) && text[p + 4] == ' ' && text[p + 5]
        == ' ' && !text.subrange(p + 6, text.len() as int).contains('\n') {
        Some((text.subrange(p, p + 4), text.subrange(p + 6, text.len() as int)))
    } else {
        None
    }
}

/// What `VENDOR_PATTERN` captures from a line.
pub open spec fn vendor_groups(text: Seq<char>) -> Option<(Seq<char>, Seq<char>)> {
    id_line_groups(Seq::empty(), text)
}

/// What `DEVICE_PATTERN` captures from a line.
pub open spec fn device_groups(text: Seq<char>) -> Option<(Seq<char>, Seq<char>)> {
    id_line_groups(seq!['\t'], text)
}

#[verifier::external_type_specification]
#[verifier::external_body]
pub struct ExRegex(Regex);

/// A compiled pattern together with its source text. Only `compile` makes one,
/// so `source` is always the text `re` was compiled from.
pub struct LinePattern {
    re: Regex,
    source: String,
}

/// Relies on regex::Regex::new: compiles a pattern; it fails only on an invalid
/// or oversized pattern, which the two line patterns are not.
#[verifier::external_body]
fn compile(pattern: &str) -> (r: Option<LinePattern>)
    ensures
        r matches Some(p) ==> p.source@ == pattern@,
        pattern@ == VENDOR_PATTERN@ || pattern@ == DEVICE_PATTERN@ ==> r is Some,
{
    Regex::new(pattern).ok().map(|re| LinePattern { re, source: pattern.to_string() })
}

/// Relies on regex::Regex::captures and Captures::get: the texts of groups 1
/// and 2 of the leftmost match in `text` (the empty text for a group that took
/// no part), `None` when nothing matches. For the two line patterns that is
/// exactly what `vendor_groups` and `device_groups` state: `^` and `$` anchor
/// at the ends of the text, `[0-9a-f]` takes those ASCII characters only, and
/// `.` takes any character but a newline.
#[verifier::external_body]
fn first_groups(p: &LinePattern, text: &str) -> (r: Option<(String, String)>)
    ensures
        p.source@ == VENDOR_PATTERN@ ==> groups_view(r) == vendor_groups(text@),
        p.source@ == DEVICE_PATTERN@ ==> groups_view(r) == device_groups(text@),
{
    p.re.captures(text).map(
        |c|
            (
                c.get(1).map_or("", |m| m.as_str()).to_string(),
                c.get(2).map_or("", |m| m.as_str()).to_string(),
            ),
    )
}

/// A line of the PCI id list that starts with `#`.
pub open spec fn is_comment(line: Seq<char>) -> bool {
    line.len() > 0 && line[0] == '#'
}

/// The lines of the PCI id list that are not comments, in order.
pub open spec fn content_lines(text: Seq<char>) -> Seq<Seq<char>> {
    lines_from(text, 0).filter(|l: Seq<char>| !is_comment(l))
}

/// What the vendor and device patterns capture from one line: the vendor id,
/// and the device id and name.
pub open spec fn spec_scan_line(line: Seq<char>) -> PciLineView {
    PciLineView {
        vendor: match vendor_groups(line) {
            Some(g) => Some(g.0),
            None => None,
        },
        device: device_groups(line),
    }
}

/// The scan of each line of the PCI id list that is not a comment.
pub open spec fn spec_scan(text: Seq<char>) -> Seq<PciLineView> {
    content_lines(text).map_values(|l: Seq<char>| spec_scan_line(l))
}

/// The marketing name of the NVIDIA device `device_id` in the PCI id list
/// `text`: the bracketed name of the first device line with that id under
/// the vendor `10de`, or `None`.
pub open spec fn spec_detect_name(text: Seq<char>, device_id: Seq<char>) -> Option<Seq<char>> {
    spec_find_device(spec_scan(text), device_id, Seq::empty(), 0)
}

/// Runs the vendor and device patterns over each line of the PCI id list that
/// is not a comment, in order.
pub fn scan_pci_ids(text: &str) -> (r: Vec<PciLine>)
    ensures
        lines_view(r@) == spec_scan(text@),
{
    let vendor_re = compile(VENDOR_PATTERN).unwrap();
    let device_re = compile(DEVICE_PATTERN).unwrap();
    let lines = split_lines(text);
    let ghost all = lines_from(text@, 0);
    let ghost keep = |l: Seq<char>| !is_comment(l);
    let ghost scan = |l: Seq<char>| spec_scan_line(l);
    let mut found: Vec<PciLine> = Vec::new();
    let mut i: usize = 0;
    while i < lines.len()
        invariant
            i <= lines@.len(),
            strings_view(lines@) == all,
            all == lines_from(text@, 0),
            keep == (|l: Seq<char>| !is_comment(l)),
            scan == (|l: Seq<char>| spec_scan_line(l)),
            vendor_re.source@ == VENDOR_PATTERN@,
            device_re.source@ == DEVICE_PATTERN@,
            lines_view(found@) == all.subrange(0, i as int).filter(keep).map_values(scan),
        decreases lines@.len() - i,
    {
        let line = lines[i].as_str();
        let ghost prev = all.subrange(0, i as int);
        proof {
            assert(all.subrange(0, i + 1) =~= prev.push(all[i as int]));
            prev.lemma_filter_push(all[i as int], keep);
            assert(all[i as int] == line@);
        }
        let comment = !line.is_empty() && line.get_char(0) == '#';
        assert(comment == is_comment(line@));
        if !comment {
            let vendor = match first_groups(&vendor_re, line) {
                Some(g) => Some(g.0),
                None => None,
            };
            let device = first_groups(&device_re, line);
            let entry = PciLine { vendor, device };
            assert(entry@ == spec_scan_line(line@));
            let ghost before = found@;
            found.push(entry);
            assert(lines_view(found@) =~= lines_view(before).push(entry@));
            assert(lines_view(found@) =~= prev.filter(keep).push(line@).map_values(scan));
        }
        i = i + 1;
    }
    assert(all.subrange(0, i as int) =~= all);
    found
}

/// The marketing name of the NVIDIA device `device_id` in the PCI id list
/// `text`: the bracketed name of the first device line with that id under the
/// vendor `10de`; `None` when there is none.
pub fn detect_device_name(text: &str, device_id: &str) -> (r: Option<String>)
    ensures
        r matches Some(name) ==> spec_detect_name(text@, device_id@) == Some(name@),
        r is None ==> spec_detect_name(text@, device_id@) is None,
{
    let found = scan_pci_ids(text);
    find_device_name(&found, device_id)
}

} // verus!
