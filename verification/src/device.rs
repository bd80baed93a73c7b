//! Recognising the recorder among the removable drives the system reports.
use vstd::prelude::*;
use crate::errors::AppError;
use crate::ingestion::{drive_path, drive_path_text};
use crate::models::{DetectedDevice, DeviceMatchRule, RawDeviceRecord, Timestamp};
use crate::text::{
    chars_of, contains_seq, contains_str, eq_ignore_ascii_case, eq_ignore_case, owned, push_str,
    str_eq, to_ascii_uppercase, trim, trim_start, trim_str, upper_seq,
};

verus! {

/// What the drive query printed, once trimmed.
#[derive(Debug)]
pub enum DeviceListing {
    /// No drive at all (nothing printed, or `null`).
    Nothing,
    /// A JSON array of drives.
    Many(String),
    /// A single JSON object for one drive.
    One(String),
}

/// The shape of what the drive query printed.
#[derive(Clone, Copy, Debug, PartialEq, Eq, Structural)]
pub enum ListingShape {
    Nothing,
    One,
    Many,
}

/// How the output of a successful drive query reads, once trimmed: empty
/// output or `null` lists no drive; text that starts with `[` is a list;
/// anything else is a single drive.
pub open spec fn listing_shape(stdout: Seq<char>) -> ListingShape {
    let t = trim(stdout);
    if t.len() == 0 || t == "null"@ {
        ListingShape::Nothing
    } else if trim_start(t).len() > 0 && trim_start(t)[0] == '[' {
        ListingShape::Many
    } else {
        ListingShape::One
    }
}

pub open spec fn shape_of(l: DeviceListing) -> ListingShape {
    match l {
        DeviceListing::Nothing => ListingShape::Nothing,
        DeviceListing::One(_) => ListingShape::One,
        DeviceListing::Many(_) => ListingShape::Many,
    }
}

/// Reads the result of the drive query.
/// A failed query is a system error carrying the trimmed error output; the
/// text handed on is the trimmed output.
pub fn read_device_listing(success: bool, stdout: &str, stderr: &str) -> (r: Result<DeviceListing, AppError>)
    ensures
        !success ==> (r matches Err(AppError::System(m)) && m@ == trim(stderr@)),
        success ==> (r matches Ok(l) && shape_of(l) == listing_shape(stdout@)),
        r matches Ok(DeviceListing::One(t)) ==> t@ == trim(stdout@),
        r matches Ok(DeviceListing::Many(t)) ==> t@ == trim(stdout@),
{
    if !success {
        return Err(AppError::System(trim_str(stderr)));
    }
    let text = trim_str(stdout);
    if text.as_str().unicode_len() == 0 || str_eq(text.as_str(), "null") {
        return Ok(DeviceListing::Nothing);
    }
    let front = trim_str_start(text.as_str());
    if front.len() > 0 && front[0] == '[' {
        Ok(DeviceListing::Many(text))
    } else {
        Ok(DeviceListing::One(text))
    }
}

/// The characters of `s` after its leading whitespace.
fn trim_str_start(s: &str) -> (r: Vec<char>)
    ensures
        r@ == trim_start(s@),
{
    let v = chars_of(s);
    let mut start: usize = 0;
    assert(v@.subrange(0, v@.len() as int) =~= v@);
    while start < v.len() && crate::text::char_is_ws(v[start])
        invariant
            v@ == s@,
            start <= v@.len(),
            trim_start(s@) == trim_start(v@.subrange(start as int, v@.len() as int)),
        decreases v@.len() - start,
    {
        let ghost rest = v@.subrange(start as int, v@.len() as int);
        assert(rest.drop_first() =~= v@.subrange(start + 1, v@.len() as int));
        start = start + 1;
    }
    let ghost rest = v@.subrange(start as int, v@.len() as int);
    assert(rest.len() == 0 || !crate::text::is_ws(rest[0]));
    assert(trim_start(rest) == rest);
    let mut out: Vec<char> = Vec::new();
    for i in start..v.len()
        invariant
            v@ == s@,
            start <= v@.len(),
            out@ == v@.subrange(start as int, i as int),
    {
        out.push(v[i]);
        assert(out@ =~= v@.subrange(start as int, i + 1));
    }
    out
}

} // verus!

verus! {

/// The device id of the drive in upper case, empty when unknown.
pub open spec fn normalized_pnp(raw: RawDeviceRecord) -> Seq<char> {
    match raw.pnp_device_id {
        Some(p) => upper_seq(p@),
        None => Seq::empty(),
    }
}

/// The configured id `value` (vendor or product), tagged with `tag`
/// (`VID_` or `PID_`), occurs in the drive's device id, ignoring ASCII case of
/// the configured value; no configured value matches every drive.
pub open spec fn id_matches(rule_value: Option<String>, tag: Seq<char>, raw: RawDeviceRecord) -> bool {
    match rule_value {
        Some(v) => contains_seq(normalized_pnp(raw), tag + upper_seq(v@)),
        None => true,
    }
}

/// The drive's volume label equals the configured one, ignoring ASCII case; a
/// drive without label never matches a configured one.
pub open spec fn label_matches(rule: DeviceMatchRule, raw: RawDeviceRecord) -> bool {
    match rule.volume_label {
        Some(label) => match raw.volume_label {
            Some(name) => eq_ignore_case(name@, label@),
            None => false,
        },
        None => true,
    }
}

/// The drive is the recorder.
pub open spec fn device_matches(rule: DeviceMatchRule, raw: RawDeviceRecord) -> bool {
    &&& id_matches(rule.vid, "VID_"@, raw)
    &&& id_matches(rule.pid, "PID_"@, raw)
    &&& label_matches(rule, raw)
}

pub open spec fn or_unknown(v: Option<String>) -> Seq<char> {
    match v {
        Some(s) => s@,
        None => "unknown"@,
    }
}

/// The identifier of a recorder: `USB:<vid>:<pid>:<label>`, with `unknown`
/// for what is not set.
pub open spec fn device_identifier(rule: DeviceMatchRule, raw: RawDeviceRecord) -> Seq<char> {
    "USB:"@ + or_unknown(rule.vid) + ":"@ + or_unknown(rule.pid) + ":"@ + or_unknown(raw.volume_label)
}

/// Whether any configured path hint was found on the drive; true when no hint is configured.
pub open spec fn hints_matched(rule: DeviceMatchRule, hint_found: Seq<bool>) -> bool {
    rule.path_hints@.len() == 0 || exists|i: int| 0 <= i < hint_found.len() && hint_found[i]
}

fn id_check(rule_value: &Option<String>, tag: &str, pnp_upper: &str, raw: &RawDeviceRecord) -> (r: bool)
    requires
        pnp_upper@ == normalized_pnp(*raw),
    ensures
        r == id_matches(*rule_value, tag@, *raw),
{
    match rule_value {
        Some(v) => {
            let mut needle = owned(tag);
            let up = to_ascii_uppercase(v.as_str());
            push_str(&mut needle, up.as_str());
            contains_str(pnp_upper, needle.as_str())
        },
        None => true,
    }
}

fn text_or_unknown(v: &Option<String>) -> (r: String)
    ensures
        r@ == or_unknown(*v),
{
    match v {
        Some(s) => s.clone(),
        None => owned("unknown"),
    }
}

/// The paths probed for the configured hints on a drive, one per hint:
/// `<drive>\<hint>`.
pub fn hint_paths(drive_letter: &str, rule: &DeviceMatchRule) -> (r: Vec<String>)
    ensures
        r@.len() == rule.path_hints@.len(),
        forall|i: int| 0 <= i < r@.len() ==> #[trigger] r@[i]@ == drive_path(
            drive_letter@,
            rule.path_hints@[i]@,
        ),
{
    let mut out: Vec<String> = Vec::new();
    for i in 0..rule.path_hints.len()
        invariant
            out@.len() == i,
            forall|j: int| 0 <= j < i ==> #[trigger] out@[j]@ == drive_path(
                drive_letter@,
                rule.path_hints@[j]@,
            ),
    {
        out.push(drive_path_text(drive_letter, rule.path_hints[i].as_str()));
    }
    out
}

/// `d` is the recorder seen on the drive `raw` at `now`, under `rule`, with
/// `hint_found` telling which path hints exist there.
pub open spec fn seen_as(
    rule: DeviceMatchRule,
    raw: RawDeviceRecord,
    hint_found: Seq<bool>,
    now: Timestamp,
    d: DetectedDevice,
) -> bool {
    &&& d.identifier@ == device_identifier(rule, raw)
    &&& d.drive_letter == raw.drive_letter
    &&& d.volume_label == raw.volume_label
    &&& d.pnp_device_id == raw.pnp_device_id
    &&& d.path_hints_matched == hints_matched(rule, hint_found)
    &&& d.last_seen_at == now
}

/// Whether a detected recorder counts as carrying its path hints is decided by
/// the hint probes alone: with no hint configured it always does; a single
/// hint found on the drive, wherever it stands in the list, is enough; and with
/// hints configured of which none was found, it does not.
pub proof fn lemma_hints_decide_match(
    rule: DeviceMatchRule,
    raw: RawDeviceRecord,
    hint_found: Seq<bool>,
    now: Timestamp,
    d: DetectedDevice,
)
    requires
        seen_as(rule, raw, hint_found, now, d),
    ensures
        rule.path_hints@.len() == 0 ==> d.path_hints_matched,
        forall|i: int| 0 <= i < hint_found.len() && #[trigger] hint_found[i] ==> d.path_hints_matched,
        rule.path_hints@.len() > 0 && (forall|i: int| 0 <= i < hint_found.len() ==> !#[trigger] hint_found[i])
            ==> !d.path_hints_matched,
{
}

/// The positions, in order, of the drives that match the rule.
pub open spec fn matching_positions(rule: DeviceMatchRule, drives: Seq<(RawDeviceRecord, Vec<bool>)>) -> Seq<int>
    decreases drives.len(),
{
    if drives.len() == 0 {
        Seq::empty()
    } else {
        let before = matching_positions(rule, drives.drop_last());
        if device_matches(rule, drives.last().0) {
            before.push(drives.len() - 1)
        } else {
            before
        }
    }
}

/// `found` lists, one for one, the recorders seen on the drives at
/// `positions`.
pub open spec fn found_at(
    rule: DeviceMatchRule,
    drives: Seq<(RawDeviceRecord, Vec<bool>)>,
    positions: Seq<int>,
    now: Timestamp,
    found: Seq<DetectedDevice>,
) -> bool {
    &&& found.len() == positions.len()
    &&& forall|k: int|
        0 <= k < found.len() ==> 0 <= positions[k] < drives.len() && seen_as(
            rule,
            drives[positions[k]].0,
            drives[positions[k]].1@,
            now,
            #[trigger] found[k],
        )
}

/// The recorders among the drives found, in the order found. Each drive comes
/// with what the probe of its path hints (see `hint_paths`) found.
pub fn select_devices(rule: &DeviceMatchRule, drives: &Vec<(RawDeviceRecord, Vec<bool>)>, now: Timestamp) -> (r: Vec<DetectedDevice>)
    ensures
        found_at(*rule, drives@, matching_positions(*rule, drives@), now, r@),
{
    let mut out: Vec<DetectedDevice> = Vec::new();
    for i in 0..drives.len()
        invariant
            found_at(*rule, drives@, matching_positions(*rule, drives@.take(i as int)), now, out@),
    {
        let ghost prev = matching_positions(*rule, drives@.take(i as int));
        let ghost out_before = out@;
        assert(drives@.take(i + 1).drop_last() =~= drives@.take(i as int));
        assert(drives@.take(i + 1).last() == drives@[i as int]);
        let raw = RawDeviceRecord {
            drive_letter: drives[i].0.drive_letter.clone(),
            volume_label: drives[i].0.volume_label.clone(),
            pnp_device_id: drives[i].0.pnp_device_id.clone(),
        };
        assert(raw == drives@[i as int].0);
        match match_device(rule, raw, &drives[i].1, now) {
            Some(d) => {
                out.push(d);
                let ghost next = prev.push(i as int);
                assert(matching_positions(*rule, drives@.take(i + 1)) == next);
                assert forall|k: int| 0 <= k < out@.len() implies 0 <= #[trigger] next[k] < drives@.len() by {
                    if k < out_before.len() {
                        assert(next[k] == prev[k]);
                        assert(out@[k] == out_before[k]);
                    }
                }
                assert forall|k: int| 0 <= k < out@.len() implies seen_as(
                    *rule,
                    drives@[next[k]].0,
                    drives@[next[k]].1@,
                    now,
                    #[trigger] out@[k],
                ) by {
                    if k < out_before.len() {
                        assert(next[k] == prev[k]);
                        assert(out@[k] == out_before[k]);
                    } else {
                        assert(next[k] == i);
                    }
                }
                assert(found_at(*rule, drives@, next, now, out@));
            },
            None => {
                assert(matching_positions(*rule, drives@.take(i + 1)) == prev);
                assert(found_at(*rule, drives@, prev, now, out@));
            },
        }
    }
    assert(drives@.take(drives@.len() as int) =~= drives@);
    out
}

/// The recorder seen on a drive, or `None` when the drive does not match the
/// rule. `hint_found` tells, hint by hint, whether the hint's path exists on
/// the drive; `now` is when the drive was seen.
pub fn match_device(rule: &DeviceMatchRule, raw: RawDeviceRecord, hint_found: &Vec<bool>, now: Timestamp) -> (r: Option<DetectedDevice>)
    ensures
        r is Some <==> device_matches(*rule, raw),
        r matches Some(d) ==> seen_as(*rule, raw, hint_found@, now, d),
{
    let pnp_upper = match &raw.pnp_device_id {
        Some(p) => to_ascii_uppercase(p.as_str()),
        None => String::new(),
    };
    let has_vid = id_check(&rule.vid, "VID_", pnp_upper.as_str(), &raw);
    let has_pid = id_check(&rule.pid, "PID_", pnp_upper.as_str(), &raw);
    let label_match = match &rule.volume_label {
        Some(label) => match &raw.volume_label {
            Some(name) => eq_ignore_ascii_case(name.as_str(), label.as_str()),
            None => false,
        },
        None => true,
    };
    let mut path_hint_match = rule.path_hints.len() == 0;
    if !path_hint_match {
        for i in 0..hint_found.len()
            invariant
                rule.path_hints@.len() != 0,
                path_hint_match == exists|j: int| 0 <= j < i && hint_found@[j],
        {
            if hint_found[i] {
                path_hint_match = true;
            }
        }
    }
    if has_vid && has_pid && label_match {
        let mut identifier = owned("USB:");
        let vid = text_or_unknown(&rule.vid);
        push_str(&mut identifier, vid.as_str());
        push_str(&mut identifier, ":");
        let pid = text_or_unknown(&rule.pid);
        push_str(&mut identifier, pid.as_str());
        push_str(&mut identifier, ":");
        let label = text_or_unknown(&raw.volume_label);
        push_str(&mut identifier, label.as_str());
        assert(identifier@ =~= device_identifier(*rule, raw));
        Some(DetectedDevice {
            identifier,
            drive_letter: raw.drive_letter,
            volume_label: raw.volume_label,
            pnp_device_id: raw.pnp_device_id,
            path_hints_matched: path_hint_match,
            last_seen_at: now,
        })
    } else {
        None
    }
}

} // verus!
