//! What a scan of a recorder decides: where to look, which files to take,
//! how a file is recognised again, and under which name it is stored.
use vstd::prelude::*;
use vstd::utf8::encode_utf8;
use sha2::Digest;
use crate::models::{AppSettings, DetectedDevice, DeviceMatchRule, RawDeviceRecord, Timestamp};
use crate::device::{lemma_hints_decide_match, seen_as};
use crate::text::{
    chars_of, eq_ignore_ascii_case, eq_ignore_case, owned, push_char, push_str, string_from_chars,
};

verus! {

/// The SHA-256 digest of `data`.
pub uninterp spec fn sha256_of(data: Seq<u8>) -> Seq<u8>;

/// `sha2::Sha256::digest`: the 32-byte SHA-256 digest of `data`. Feeding the
/// hasher several pieces in turn gives the digest of their concatenation.
#[verifier::external_body]
fn sha256_digest(data: &[u8]) -> (r: Vec<u8>)
    ensures
        r@ == sha256_of(data@),
        r@.len() == 32,
{
    sha2::Sha256::digest(data).to_vec()
}

/// The text of a random (version 4) UUID as `Uuid`'s `Display` writes it: 36
/// characters, hyphens at positions 8, 13, 18 and 23, lower-case hexadecimal
/// digits elsewhere, the version digit `4` at position 14, and a variant digit
/// `8`, `9`, `a` or `b` at position 19.
pub open spec fn is_uuid_v4_text(s: Seq<char>) -> bool {
    &&& s.len() == 36
    &&& forall|i: int|
        0 <= i < 36 ==> if i == 8 || i == 13 || i == 18 || i == 23 {
            s[i] == '-'
        } else {
            is_hex_digit(#[trigger] s[i])
        }
    &&& s[14] == '4'
    &&& (s[19] == '8' || s[19] == '9' || s[19] == 'a' || s[19] == 'b')
}

/// `uuid::Uuid::new_v4().to_string()`: a fresh random identifier. The claim is
/// only its form (`new_v4` sets the version and variant bits, `Display` writes
/// the hyphenated lower-case form); its digits are random.
#[verifier::external_body]
fn new_uuid_text() -> (r: String)
    ensures
        is_uuid_v4_text(r@),
{
    uuid::Uuid::new_v4().to_string()
}

/// The little-endian bytes of `x`, lowest first (`u64::to_le_bytes`).
pub open spec fn le_bytes(x: nat, n: nat) -> Seq<u8>
    decreases n,
{
    if n == 0 {
        Seq::empty()
    } else {
        seq![(x % 256) as u8] + le_bytes(x / 256, (n - 1) as nat)
    }
}

pub fn u64_le_bytes(x: u64) -> (r: Vec<u8>)
    ensures
        r@ == le_bytes(x as nat, 8),
{
    let mut out: Vec<u8> = Vec::new();
    let mut v: u64 = x;
    let mut i: usize = 0;
    while i < 8
        invariant
            i <= 8,
            out@ + le_bytes(v as nat, (8 - i) as nat) == le_bytes(x as nat, 8),
        decreases 8 - i,
    {
        let ghost rest = le_bytes(v as nat, (8 - i) as nat);
        assert(rest == seq![(v % 256) as u8] + le_bytes((v / 256) as nat, (8 - i - 1) as nat));
        out.push((v % 256) as u8);
        assert(out@ + le_bytes((v / 256) as nat, (8 - i - 1) as nat) =~= le_bytes(x as nat, 8));
        v = v / 256;
        i = i + 1;
    }
    assert(out@ + Seq::<u8>::empty() =~= out@);
    out
}

/// The lower-case hexadecimal digit of a value below 16.
pub open spec fn hex_digit(d: nat) -> char {
    if d < 10 {
        (d + 48) as char
    } else {
        (d + 87) as char
    }
}

/// Bytes in lower-case hexadecimal, two digits per byte, high digit first.
pub open spec fn hex_lower(bytes: Seq<u8>) -> Seq<char>
    decreases bytes.len(),
{
    if bytes.len() == 0 {
        Seq::empty()
    } else {
        hex_lower(bytes.drop_last()) + seq![
            hex_digit((bytes.last() / 16) as nat),
            hex_digit((bytes.last() % 16) as nat),
        ]
    }
}

fn hex_digit_exec(d: u8) -> (c: char)
    requires
        d < 16,
    ensures
        c == hex_digit(d as nat),
{
    if d < 10 {
        (d + 48) as char
    } else {
        (d + 87) as char
    }
}

/// A lower-case hexadecimal digit.
pub open spec fn is_hex_digit(c: char) -> bool {
    ('0' <= c && c <= '9') || ('a' <= c && c <= 'f')
}

proof fn lemma_hex_lower_len(bytes: Seq<u8>)
    ensures
        hex_lower(bytes).len() == 2 * bytes.len(),
        forall|i: int| 0 <= i < hex_lower(bytes).len() ==> is_hex_digit(#[trigger] hex_lower(bytes)[i]),
    decreases bytes.len(),
{
    if bytes.len() > 0 {
        lemma_hex_lower_len(bytes.drop_last());
        let h = hex_lower(bytes.drop_last());
        let b = bytes.last();
        assert(hex_lower(bytes) == h + seq![hex_digit((b / 16) as nat), hex_digit((b % 16) as nat)]);
        assert forall|i: int| 0 <= i < hex_lower(bytes).len() implies is_hex_digit(
            #[trigger] hex_lower(bytes)[i],
        ) by {
            if i < h.len() {
                assert(hex_lower(bytes)[i] == h[i]);
            }
        }
    }
}

pub fn hex_encode(bytes: &[u8]) -> (r: String)
    ensures
        r@ == hex_lower(bytes@),
{
    let mut out: Vec<char> = Vec::new();
    for i in 0..bytes.len()
        invariant
            out@ == hex_lower(bytes@.take(i as int)),
    {
        assert(bytes@.take(i + 1).drop_last() =~= bytes@.take(i as int));
        let b = bytes[i];
        out.push(hex_digit_exec(b / 16));
        out.push(hex_digit_exec(b % 16));
        assert(out@ =~= hex_lower(bytes@.take(i + 1)));
    }
    assert(bytes@.take(bytes@.len() as int) =~= bytes@);
    string_from_chars(&out)
}

/// The bytes a recording's fingerprint is the digest of: the device
/// identifier, the relative path, the size and the modification time.
pub open spec fn fingerprint_input(device: Seq<char>, path: Seq<char>, size: u64, modified: u64) -> Seq<u8> {
    encode_utf8(device) + encode_utf8(path) + le_bytes(size as nat, 8) + le_bytes(modified as nat, 8)
}

/// The fingerprint that recognises a file already imported.
pub open spec fn fingerprint(device: Seq<char>, path: Seq<char>, size: u64, modified: u64) -> Seq<char> {
    hex_lower(sha256_of(fingerprint_input(device, path, size, modified)))
}

/// The SHA-256 of the file's identity (device, relative path, size,
/// modification time in seconds since the Unix epoch), in
/// lower-case hexadecimal: 64 characters.
pub fn compute_fingerprint(device_identifier: &str, relative_path: &str, size: u64, modified_hint: u64) -> (r: String)
    ensures
        r@ == fingerprint(device_identifier@, relative_path@, size, modified_hint),
        r@.len() == 64,
        forall|i: int| 0 <= i < r@.len() ==> is_hex_digit(#[trigger] r@[i]),
{
    let mut data: Vec<u8> = Vec::new();
    let a = device_identifier.as_bytes();
    for i in 0..a.len()
        invariant
            data@ == a@.take(i as int),
    {
        data.push(a[i]);
        assert(data@ =~= a@.take(i + 1));
    }
    assert(a@.take(a@.len() as int) =~= a@);
    let b = relative_path.as_bytes();
    let ghost prefix = data@;
    for i in 0..b.len()
        invariant
            data@ == prefix + b@.take(i as int),
    {
        data.push(b[i]);
        assert(data@ =~= prefix + b@.take(i + 1));
    }
    assert(b@.take(b@.len() as int) =~= b@);
    let mut s = u64_le_bytes(size);
    data.append(&mut s);
    let mut m = u64_le_bytes(modified_hint);
    data.append(&mut m);
    assert(data@ =~= fingerprint_input(device_identifier@, relative_path@, size, modified_hint));
    let digest = sha256_digest(data.as_slice());
    proof {
        lemma_hex_lower_len(digest@);
    }
    hex_encode(digest.as_slice())
}

} // verus!

verus! {

/// The log line of a failed scan: the scan at start-up and the periodic scans
/// are told apart, and the error's text follows.
pub open spec fn scan_failure_text(first: bool, error: Seq<char>) -> Seq<char> {
    (if first { "首次设备扫描失败: "@ } else { "周期设备扫描失败: "@ }) + error
}

/// The message logged (at level `ERROR`, scope `device`) when a scan fails;
/// the watch loop goes on after it.
pub fn scan_failure_message(first: bool, error: &str) -> (r: String)
    ensures
        r@ == scan_failure_text(first, error@),
{
    let mut m = if first {
        owned("首次设备扫描失败: ")
    } else {
        owned("周期设备扫描失败: ")
    };
    push_str(&mut m, error);
    m
}

/// Seconds between two scans: the configured interval, at least 5.
pub open spec fn scan_wait(settings: AppSettings) -> u64 {
    if settings.scan_interval_secs < 5 {
        5
    } else {
        settings.scan_interval_secs
    }
}

pub fn scan_interval(settings: &AppSettings) -> (r: u64)
    ensures
        r == scan_wait(*settings),
{
    if settings.scan_interval_secs < 5 {
        5
    } else {
        settings.scan_interval_secs
    }
}

/// A path on the recorder: the drive letter, a backslash, then `rest`.
pub open spec fn drive_path(drive_letter: Seq<char>, rest: Seq<char>) -> Seq<char> {
    drive_letter + seq!['\\'] + rest
}

pub fn drive_path_text(drive_letter: &str, rest: &str) -> (r: String)
    ensures
        r@ == drive_path(drive_letter@, rest@),
{
    let mut s = owned(drive_letter);
    push_char(&mut s, '\\');
    push_str(&mut s, rest);
    assert(s@ =~= drive_path(drive_letter@, rest@));
    s
}

/// The folders searched on a recorder: the configured scan directories under
/// its drive, or the drive's root when none is configured. Folders that do not
/// exist are skipped by the caller.
pub open spec fn scan_root_paths(drive_letter: Seq<char>, dirs: Seq<String>) -> Seq<Seq<char>> {
    if dirs.len() == 0 {
        seq![drive_path(drive_letter, Seq::empty())]
    } else {
        dirs.map_values(|d: String| drive_path(drive_letter, d@))
    }
}

pub fn scan_roots(drive_letter: &str, scan_directories: &Vec<String>) -> (r: Vec<String>)
    ensures
        r@.map_values(|s: String| s@) == scan_root_paths(drive_letter@, scan_directories@),
{
    let mut out: Vec<String> = Vec::new();
    if scan_directories.len() == 0 {
        out.push(drive_path_text(drive_letter, ""));
        assert(""@ =~= Seq::<char>::empty()) by {
            reveal_strlit("");
        }
        assert(out@.map_values(|s: String| s@) =~= scan_root_paths(
            drive_letter@,
            scan_directories@,
        ));
        return out;
    }
    for i in 0..scan_directories.len()
        invariant
            scan_directories@.len() > 0,
            out@.len() == i,
            out@.map_values(|s: String| s@) == scan_directories@.take(i as int).map_values(
                |d: String| drive_path(drive_letter@, d@),
            ),
    {
        let ghost before = out@;
        let p = drive_path_text(drive_letter, scan_directories[i].as_str());
        out.push(p);
        assert(out@ == before.push(p));
        assert forall|k: int| #![trigger out@[k]] 0 <= k < i + 1 implies out@.map_values(|s: String| s@)[k]
            == scan_directories@.take(i + 1).map_values(|d: String| drive_path(drive_letter@, d@))[k] by {
            if k < i {
                assert(out@[k] == before[k]);
                assert(before.map_values(|s: String| s@)[k] == scan_directories@.take(
                    i as int,
                ).map_values(|d: String| drive_path(drive_letter@, d@))[k]);
            }
        }
        assert(out@.map_values(|s: String| s@) =~= scan_directories@.take(i + 1).map_values(
            |d: String| drive_path(drive_letter@, d@),
        ));
    }
    assert(scan_directories@.take(scan_directories@.len() as int) =~= scan_directories@);
    out
}

/// A file is imported when its extension equals one of the allowed ones,
/// ignoring ASCII case.
pub open spec fn extension_accepted(allowed: Seq<String>, extension: Seq<char>) -> bool {
    exists|i: int| 0 <= i < allowed.len() && eq_ignore_case(#[trigger] allowed[i]@, extension)
}

pub fn extension_allowed(allowed: &Vec<String>, extension: &str) -> (r: bool)
    ensures
        r == extension_accepted(allowed@, extension@),
{
    for i in 0..allowed.len()
        invariant
            forall|j: int| 0 <= j < i ==> !eq_ignore_case(#[trigger] allowed@[j]@, extension@),
    {
        if eq_ignore_ascii_case(allowed[i].as_str(), extension) {
            return true;
        }
    }
    false
}

/// `s` with every backslash turned into a forward slash.
pub open spec fn forward_slashes(s: Seq<char>) -> Seq<char> {
    s.map_values(|c: char| if c == '\\' { '/' } else { c })
}

/// The path of a file relative to the recorder's root, written with forward slashes.
pub fn normalize_relative_path(path: &str) -> (r: String)
    ensures
        r@ == forward_slashes(path@),
{
    let v = chars_of(path);
    let mut out: Vec<char> = Vec::new();
    for i in 0..v.len()
        invariant
            v@ == path@,
            out@ == forward_slashes(v@.take(i as int)),
    {
        let c = v[i];
        out.push(if c == '\\' { '/' } else { c });
        assert(out@ =~= forward_slashes(v@.take(i + 1)));
    }
    assert(v@.take(v@.len() as int) =~= v@);
    string_from_chars(&out)
}

/// A recorder's files are imported unless path hints are configured and none
/// of them was found on it.
pub open spec fn device_importable(device: DetectedDevice, rule: DeviceMatchRule) -> bool {
    device.path_hints_matched || rule.path_hints@.len() == 0
}

/// The import gate: a recorder's files are scanned unless path hints are
/// configured and none of them was found on its drive. So a recorder on
/// which a hint was found, and any recorder when no hint is configured, is
/// scanned; only one with hints configured and none found is skipped.
pub proof fn lemma_import_gate(device: DetectedDevice, rule: DeviceMatchRule)
    ensures
        device.path_hints_matched ==> device_importable(device, rule),
        rule.path_hints@.len() == 0 ==> device_importable(device, rule),
        !device.path_hints_matched && rule.path_hints@.len() > 0 ==> !device_importable(device, rule),
{
}

/// A recorder that device matching reports under the same rule is scanned
/// whenever no hint is configured or any configured hint was found on it.
pub proof fn lemma_detected_recorder_scanned(
    rule: DeviceMatchRule,
    raw: RawDeviceRecord,
    hint_found: Seq<bool>,
    now: Timestamp,
    d: DetectedDevice,
)
    requires
        seen_as(rule, raw, hint_found, now, d),
        rule.path_hints@.len() == 0 || exists|i: int| 0 <= i < hint_found.len() && hint_found[i],
    ensures
        device_importable(d, rule),
{
    lemma_hints_decide_match(rule, raw, hint_found, now, d);
    lemma_import_gate(d, rule);
}

pub fn should_import_device(device: &DetectedDevice, rule: &DeviceMatchRule) -> (r: bool)
    ensures
        r == device_importable(*device, *rule),
{
    !(!device.path_hints_matched && rule.path_hints.len() != 0)
}

/// The identity under which a new file is stored.
pub struct ImportPlan {
    /// A fresh identifier for the recording.
    pub audio_id: String,
    /// The name of the stored copy: the identifier, a dot, the extension.
    pub stored_file_name: String,
}

/// The name of the stored copy of a recording.
pub open spec fn stored_name(audio_id: Seq<char>, extension: Seq<char>) -> Seq<char> {
    audio_id + seq!['.'] + extension
}

/// The fingerprint of a file found on a recorder.
pub fn file_fingerprint(device: &DetectedDevice, relative_path: &str, size: u64, modified_hint: u64) -> (r: String)
    ensures
        r@ == fingerprint(device.identifier@, relative_path@, size, modified_hint),
{
    compute_fingerprint(device.identifier.as_str(), relative_path, size, modified_hint)
}

/// A file left unchanged on a recorder is recognised as already imported: the
/// same device, relative path, size and modification time give the same
/// fingerprint on every scan, so the fingerprint stored when the file was
/// imported is found again and the file is not copied a second time.
pub proof fn lemma_unchanged_file_recognised(
    device: DetectedDevice,
    later: DetectedDevice,
    path: Seq<char>,
    size: u64,
    modified: u64,
    stored: Set<Seq<char>>,
)
    requires
        later.identifier@ == device.identifier@,
        stored.contains(fingerprint(device.identifier@, path, size, modified)),
    ensures
        stored.contains(fingerprint(later.identifier@, path, size, modified)),
{
}

/// Gives a new file a fresh random identifier and names its stored copy after
/// it, keeping the file's extension.
pub fn plan_import(extension: &str) -> (r: ImportPlan)
    ensures
        is_uuid_v4_text(r.audio_id@),
        r.stored_file_name@ == stored_name(r.audio_id@, extension@),
{
    let audio_id = new_uuid_text();
    let mut name = audio_id.clone();
    push_char(&mut name, '.');
    push_str(&mut name, extension);
    assert(name@ =~= stored_name(audio_id@, extension@));
    ImportPlan { audio_id, stored_file_name: name }
}

} // verus!
