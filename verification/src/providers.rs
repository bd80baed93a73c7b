//! Decisions around the transcription and summary services: which failures
//! are retried and after how long, what a service answer must hold, and which
//! headers a request carries.
use vstd::prelude::*;
use crate::errors::AppError;
use crate::models::{HeaderEntry, ProviderSettings, TranscriptSegment};
use vstd::utf8::encode_utf8;
use reqwest::header::{HeaderMap, HeaderName, HeaderValue};
use crate::text::{
    contains_seq, contains_str, decimal, is_blank, is_blank_str, lemma_trim_empty_iff_blank, lower_seq,
    occurs_at, owned, push_str, trim, u64_to_decimal,
};

verus! {

/// Text of the error raised when a service answers with a non-success HTTP status.
pub open spec fn status_error_text(scope: Seq<char>, status: nat, body: Seq<char>) -> Seq<char> {
    scope + " 返回 HTTP "@ + decimal(status) + ": "@ + body
}

/// The error for a non-success HTTP answer of a service.
pub fn status_error(scope: &str, status: u16, body: String) -> (r: AppError)
    ensures
        r matches AppError::Provider(m) && m@ == status_error_text(scope@, status as nat, body@),
{
    let mut m = String::new();
    push_str(&mut m, scope);
    push_str(&mut m, " 返回 HTTP ");
    let digits = u64_to_decimal(status as u64);
    push_str(&mut m, digits.as_str());
    push_str(&mut m, ": ");
    push_str(&mut m, body.as_str());
    assert(m@ =~= status_error_text(scope@, status as nat, body@));
    AppError::Provider(m)
}

/// A failed request is worth repeating: the HTTP client failed, or the
/// service answered with a server error (`HTTP 5xx`).
pub open spec fn retryable(e: AppError) -> bool {
    ||| e is Http
    ||| (e matches AppError::Provider(m) && contains_seq(m@, "HTTP 5"@))
}

pub fn is_retryable(e: &AppError) -> (r: bool)
    ensures
        r == retryable(*e),
{
    match e {
        AppError::Http(_) => true,
        AppError::Provider(m) => contains_str(m.as_str(), "HTTP 5"),
        _ => false,
    }
}

/// A service that answers with a server error (status 500 to 599) is asked again.
pub proof fn lemma_server_errors_are_retried(
    scope: Seq<char>,
    status: nat,
    body: Seq<char>,
    message: String,
)
    requires
        500 <= status < 600,
        message@ == status_error_text(scope, status, body),
    ensures
        retryable(AppError::Provider(message)),
{
    reveal_strlit(" 返回 HTTP ");
    reveal_strlit("HTTP 5");
    reveal_strlit(": ");
    assert(decimal(status) == decimal(status / 10).push(
        crate::text::digit_char(status % 10),
    ));
    assert(decimal(status / 10) == decimal(status / 100).push(
        crate::text::digit_char((status / 10) % 10),
    ));
    assert(status / 100 == 5);
    assert(decimal(5) == seq![crate::text::digit_char(5)]);
    let d = decimal(status);
    assert(d.len() == 3);
    assert(d[0] == '5');
    let t = status_error_text(scope, status, body);
    let i = scope.len() as int + 4;
    assert(t.subrange(i, i + 6) =~= "HTTP 5"@);
    assert(occurs_at(t, "HTTP 5"@, i));
}

/// `2` raised to `n`.
pub open spec fn pow2(n: nat) -> nat
    decreases n,
{
    if n == 0 {
        1
    } else {
        2 * pow2((n - 1) as nat)
    }
}

proof fn lemma_pow2_monotone(a: nat, b: nat)
    requires
        a <= b,
    ensures
        pow2(a) <= pow2(b),
    decreases b,
{
    if a < b {
        lemma_pow2_monotone(a, (b - 1) as nat);
    }
}

/// Seconds to wait before the request that follows failed attempt number
/// `attempt` (counting from zero): `2^(attempt + 1)`, capped at `u64::MAX`.
pub open spec fn backoff_secs(attempt: nat) -> nat {
    if pow2(attempt + 1) > u64::MAX {
        u64::MAX as nat
    } else {
        pow2(attempt + 1)
    }
}

/// `2u64.saturating_pow(attempt + 1)`.
pub fn backoff_delay(attempt: u32) -> (r: u64)
    ensures
        r == backoff_secs(attempt as nat),
{
    let e: u64 = attempt as u64 + 1;
    let mut r: u64 = 1;
    let mut i: u64 = 0;
    while i < e
        invariant
            e == attempt + 1,
            i <= e,
            r == pow2(i as nat),
        decreases e - i,
    {
        if r > u64::MAX / 2 {
            proof {
                assert(pow2((i + 1) as nat) == 2 * pow2(i as nat));
                lemma_pow2_monotone((i + 1) as nat, e as nat);
            }
            return u64::MAX;
        }
        r = r * 2;
        i = i + 1;
    }
    r
}

/// What to do after a request failed.
#[derive(Debug, Clone, Copy, PartialEq, Eq, Structural)]
pub enum RetryDecision {
    /// Report the failure.
    GiveUp,
    /// Wait `delay_secs` seconds, then send request number `next_attempt`.
    Retry { delay_secs: u64, next_attempt: u32 },
}

/// The decision after failed attempt `attempt` when `max_retries` repeats are allowed.
pub open spec fn retry_plan(attempt: u32, max_retries: u32, can_retry: bool) -> RetryDecision {
    if attempt >= max_retries || !can_retry {
        RetryDecision::GiveUp
    } else {
        RetryDecision::Retry {
            delay_secs: backoff_secs(attempt as nat) as u64,
            next_attempt: (attempt + 1) as u32,
        }
    }
}

/// Decides, after attempt number `attempt` (from zero) failed with `error`,
/// whether to give up or to wait and try again.
pub fn retry_decision(attempt: u32, max_retries: u32, error: &AppError) -> (r: RetryDecision)
    ensures
        r == retry_plan(attempt, max_retries, retryable(*error)),
{
    if attempt >= max_retries || !is_retryable(error) {
        RetryDecision::GiveUp
    } else {
        RetryDecision::Retry { delay_secs: backoff_delay(attempt), next_attempt: attempt + 1 }
    }
}

/// The number of requests sent when they fail one after another, the `i`th
/// failure being retryable exactly when `can_retry[i]`, starting at attempt
/// `attempt`; sending stops at the first decision to give up or when no
/// failure is left.
pub open spec fn requests_sent(attempt: u32, max_retries: u32, can_retry: Seq<bool>) -> nat
    decreases can_retry.len(),
{
    if can_retry.len() == 0 {
        0
    } else {
        match retry_plan(attempt, max_retries, can_retry[0]) {
            RetryDecision::GiveUp => 1,
            RetryDecision::Retry { next_attempt, .. } => 1 + requests_sent(
                next_attempt,
                max_retries,
                can_retry.drop_first(),
            ),
        }
    }
}

proof fn lemma_requests_bounded(attempt: u32, max_retries: u32, can_retry: Seq<bool>)
    requires
        attempt <= max_retries,
    ensures
        requests_sent(attempt, max_retries, can_retry) <= max_retries - attempt + 1,
    decreases can_retry.len(),
{
    if can_retry.len() > 0 && attempt < max_retries && can_retry[0] {
        lemma_requests_bounded((attempt + 1) as u32, max_retries, can_retry.drop_first());
    }
}

proof fn lemma_requests_all_retryable(attempt: u32, max_retries: u32, can_retry: Seq<bool>)
    requires
        attempt <= max_retries,
        can_retry.len() > max_retries - attempt,
        forall|i: int| 0 <= i < can_retry.len() ==> can_retry[i],
    ensures
        requests_sent(attempt, max_retries, can_retry) == max_retries - attempt + 1,
    decreases can_retry.len(),
{
    if attempt < max_retries {
        lemma_requests_all_retryable((attempt + 1) as u32, max_retries, can_retry.drop_first());
    }
}

/// A request is sent at most `max_retries + 1` times, and exactly that often
/// when every failure is retryable.
pub proof fn lemma_retry_budget(max_retries: u32, can_retry: Seq<bool>)
    ensures
        requests_sent(0, max_retries, can_retry) <= max_retries + 1,
        (can_retry.len() > max_retries && forall|i: int|
            0 <= i < can_retry.len() ==> can_retry[i]) ==> requests_sent(
            0,
            max_retries,
            can_retry,
        ) == max_retries + 1,
{
    lemma_requests_bounded(0, max_retries, can_retry);
    if can_retry.len() > max_retries && forall|i: int| 0 <= i < can_retry.len() ==> can_retry[i] {
        lemma_requests_all_retryable(0, max_retries, can_retry);
    }
}

/// Each wait is twice the previous one until the cap is reached.
pub proof fn lemma_backoff_doubles(attempt: nat)
    requires
        pow2(attempt + 2) <= u64::MAX,
    ensures
        backoff_secs(attempt + 1) == 2 * backoff_secs(attempt),
{
    assert(pow2(attempt + 2) == 2 * pow2(attempt + 1));
}

} // verus!

verus! {

/// Why a transcription answer is refused, if it is: it holds no segment, or a
/// segment has a blank speaker label.
pub open spec fn transcription_complaint(segments: Seq<TranscriptSegment>) -> Option<Seq<char>> {
    if segments.len() == 0 {
        Some("转写服务未返回任何分段结果"@)
    } else if exists|i: int| 0 <= i < segments.len() && is_blank(#[trigger] segments[i].speaker_label@) {
        Some("转写结果缺少说话人标记"@)
    } else {
        None
    }
}

/// A transcription answer in which any segment, the first one included, has a
/// speaker label that trims to nothing is refused for the missing speaker
/// label, unless it is refused for holding no segment at all.
pub proof fn lemma_unlabelled_segment_refused(segments: Seq<TranscriptSegment>, i: int)
    requires
        0 <= i < segments.len(),
        trim(segments[i].speaker_label@).len() == 0,
    ensures
        transcription_complaint(segments) == Some("转写结果缺少说话人标记"@),
{
    lemma_trim_empty_iff_blank(segments[i].speaker_label@);
}

/// An accepted transcription answer holds at least one segment, and every one
/// of its segments carries a speaker label that does not trim to nothing.
pub proof fn lemma_accepted_segments_labelled(segments: Seq<TranscriptSegment>)
    requires
        transcription_complaint(segments) is None,
    ensures
        segments.len() > 0,
        forall|i: int| 0 <= i < segments.len() ==> trim(#[trigger] segments[i].speaker_label@).len() > 0,
{
    assert forall|i: int| 0 <= i < segments.len() implies trim(#[trigger] segments[i].speaker_label@).len() > 0 by {
        lemma_trim_empty_iff_blank(segments[i].speaker_label@);
    }
}

/// Accepts the segments of a transcription answer, or refuses them as a provider error.
pub fn validate_transcription(segments: Vec<TranscriptSegment>) -> (r: Result<Vec<TranscriptSegment>, AppError>)
    ensures
        transcription_complaint(segments@) is None ==> (r matches Ok(v) && v@ == segments@),
        transcription_complaint(segments@) matches Some(m) ==> (r matches Err(AppError::Provider(x))
            && x@ == m),
{
    if segments.len() == 0 {
        return Err(AppError::Provider(owned("转写服务未返回任何分段结果")));
    }
    for i in 0..segments.len()
        invariant
            forall|j: int| 0 <= j < i ==> !is_blank(#[trigger] segments@[j].speaker_label@),
    {
        if is_blank_str(segments[i].speaker_label.as_str()) {
            assert(is_blank(segments@[i as int].speaker_label@));
            return Err(AppError::Provider(owned("转写结果缺少说话人标记")));
        }
    }
    Ok(segments)
}

/// `parts` joined with `sep` between neighbours.
pub open spec fn joined(parts: Seq<Seq<char>>, sep: Seq<char>) -> Seq<char>
    decreases parts.len(),
{
    if parts.len() == 0 {
        Seq::empty()
    } else if parts.len() == 1 {
        parts[0]
    } else {
        joined(parts.drop_last(), sep) + sep + parts.last()
    }
}

/// One transcript line as the summary service reads it: `speaker: text`.
pub open spec fn transcript_line(s: TranscriptSegment) -> Seq<char> {
    s.speaker_label@ + ": "@ + s.text@
}

/// The whole transcript sent to the summary service, one line per segment.
pub open spec fn transcript_text(segments: Seq<TranscriptSegment>) -> Seq<char> {
    joined(segments.map_values(|s: TranscriptSegment| transcript_line(s)), "\n"@)
}

pub fn render_transcript_text(segments: &[TranscriptSegment]) -> (r: String)
    ensures
        r@ == transcript_text(segments@),
{
    let ghost lines = segments@.map_values(|s: TranscriptSegment| transcript_line(s));
    let mut out = String::new();
    for i in 0..segments.len()
        invariant
            lines == segments@.map_values(|s: TranscriptSegment| transcript_line(s)),
            out@ == joined(lines.take(i as int), "\n"@),
    {
        assert(lines.take(i + 1).drop_last() =~= lines.take(i as int));
        if i > 0 {
            push_str(&mut out, "\n");
        }
        push_str(&mut out, segments[i].speaker_label.as_str());
        push_str(&mut out, ": ");
        push_str(&mut out, segments[i].text.as_str());
        assert(out@ =~= joined(lines.take(i + 1), "\n"@));
    }
    assert(lines.take(segments@.len() as int) =~= lines);
    out
}

} // verus!

verus! {

/// A byte allowed in an HTTP header name: a token character of RFC 7230
/// (upper-case letters are accepted and stored in lower case).
pub open spec fn header_name_byte(b: u8) -> bool {
    ||| (48 <= b && b <= 57)
    ||| (65 <= b && b <= 90)
    ||| (97 <= b && b <= 122)
    ||| b == 33 || b == 35 || b == 36 || b == 37 || b == 38 || b == 39
    ||| b == 42 || b == 43 || b == 45 || b == 46
    ||| b == 94 || b == 95 || b == 96 || b == 124 || b == 126
}

/// The UTF-8 bytes of `name` form a header name that the HTTP library accepts:
/// between 1 and 65535 bytes, each a token character.
pub open spec fn header_name_ok(name: Seq<char>) -> bool {
    let bytes = encode_utf8(name);
    &&& 1 <= bytes.len() <= 65535
    &&& forall|i: int| 0 <= i < bytes.len() ==> header_name_byte(#[trigger] bytes[i])
}

/// A byte allowed in an HTTP header value: tab, or anything from space up except DEL.
pub open spec fn header_value_byte(b: u8) -> bool {
    (b >= 32 && b != 127) || b == 9
}

/// The UTF-8 bytes of `value` form a header value that the HTTP library accepts.
pub open spec fn header_value_ok(value: Seq<char>) -> bool {
    let bytes = encode_utf8(value);
    forall|i: int| 0 <= i < bytes.len() ==> header_value_byte(#[trigger] bytes[i])
}

/// Whether `reqwest::header::HeaderName::from_bytes` accepts the bytes of
/// `name`: it does for 1 to 65535 bytes that are all token characters.
#[verifier::external_body]
fn header_name_valid(name: &str) -> (r: bool)
    ensures
        r == header_name_ok(name@),
{
    reqwest::header::HeaderName::from_bytes(name.as_bytes()).is_ok()
}

/// Whether `reqwest::header::HeaderValue::from_str` accepts `value`: it does
/// when no byte is a control character other than tab.
#[verifier::external_body]
fn header_value_valid(value: &str) -> (r: bool)
    ensures
        r == header_value_ok(value@),
{
    reqwest::header::HeaderValue::from_str(value).is_ok()
}

/// `reqwest::header::HeaderMap`, declared so that a map can be built and
/// handed out.
#[verifier::external_type_specification]
#[verifier::external_body]
#[verifier::reject_recursive_types(T)]
pub struct ExHeaderMap<T>(reqwest::header::HeaderMap<T>);

/// `reqwest::header::HeaderValue`, the value type of the map, carried unopened.
#[verifier::external_type_specification]
#[verifier::external_body]
pub struct ExHeaderValue(reqwest::header::HeaderValue);

/// What a header map holds: for each header name in it (in lower case, as the
/// map stores names), the text of its value.
pub uninterp spec fn header_map_entries(m: HeaderMap) -> Map<Seq<char>, Seq<char>>;

/// `HeaderMap::new`: a map holding no header.
#[verifier::external_body]
fn new_header_map() -> (r: HeaderMap)
    ensures
        header_map_entries(r).dom().len() == 0,
        header_map_entries(r).dom().finite(),
{
    reqwest::header::HeaderMap::new()
}

/// `HeaderMap::insert` of the header `name: value`, whose name and value are
/// first converted with `HeaderName::from_bytes` and `HeaderValue::from_str`
/// (both accept them, as required). The claim: the map then holds `value`
/// under the name in lower case (`from_bytes` lowers ASCII letters) in place
/// of whatever it held under that name, and is otherwise unchanged.
/// `HeaderMap::insert` panics when its table would have to grow past 32768
/// slots; a map of fewer than `HEADER_MAP_LIMIT` names never grows that far,
/// whatever the names hash to, so the map given must be below that size.
#[verifier::external_body]
fn insert_header(map: &mut HeaderMap, name: &str, value: &str)
    requires
        header_name_ok(name@),
        header_value_ok(value@),
        header_map_entries(*old(map)).dom().len() < HEADER_MAP_LIMIT,
    ensures
        header_map_entries(*final(map)) == header_map_entries(*old(map)).insert(
            lower_seq(name@),
            value@,
        ),
{
    if let (Ok(n), Ok(v)) = (HeaderName::from_bytes(name.as_bytes()), HeaderValue::from_str(value)) {
        map.insert(n, v);
    }
}

/// The number of header names below which inserting into a header map cannot
/// overflow it.
pub const HEADER_MAP_LIMIT: usize = 6500;

/// A header map built by inserting `ps` in turn holds at most one name per
/// header inserted.
proof fn lemma_header_table_size(ps: Seq<(Seq<char>, Seq<char>)>)
    ensures
        header_table(ps).dom().finite(),
        header_table(ps).dom().len() <= ps.len(),
    decreases ps.len(),
{
    if ps.len() > 0 {
        lemma_header_table_size(ps.drop_last());
        let before = header_table(ps.drop_last());
        assert(header_table(ps).dom() =~= before.dom().insert(lower_seq(ps.last().0)));
    }
}

/// The name and value of each header entry.
pub open spec fn header_pairs(v: Seq<HeaderEntry>) -> Seq<(Seq<char>, Seq<char>)> {
    v.map_values(|e: HeaderEntry| (e.key@, e.value@))
}

/// `ps` put in front of the headers of `r`, or the error of `r`.
pub open spec fn prepend_headers(
    ps: Seq<(Seq<char>, Seq<char>)>,
    r: Result<Seq<(Seq<char>, Seq<char>)>, Seq<char>>,
) -> Result<Seq<(Seq<char>, Seq<char>)>, Seq<char>> {
    match r {
        Ok(rest) => Ok(ps + rest),
        Err(m) => Err(m),
    }
}

/// The extra headers in order, or the complaint about the first unusable one.
pub open spec fn extra_header_plan(es: Seq<HeaderEntry>) -> Result<Seq<(Seq<char>, Seq<char>)>, Seq<char>>
    decreases es.len(),
{
    if es.len() == 0 {
        Ok(Seq::empty())
    } else if !header_name_ok(es[0].key@) {
        Err("无效的 header 名称: "@ + es[0].key@)
    } else if !header_value_ok(es[0].value@) {
        Err("无效的 header 值: "@ + es[0].key@)
    } else {
        prepend_headers(seq![(es[0].key@, es[0].value@)], extra_header_plan(es.drop_first()))
    }
}

/// The name of the authentication header: the configured one, else `Authorization`.
pub open spec fn auth_header_name(p: ProviderSettings) -> Seq<char> {
    match p.auth_header {
        Some(h) => h@,
        None => "Authorization"@,
    }
}

/// The headers a provider's requests carry, in order of insertion: the API key
/// under the authentication header when a non-blank key is set, then the extra
/// headers. Or the complaint about the first unusable name or value.
pub open spec fn header_plan(p: ProviderSettings) -> Result<Seq<(Seq<char>, Seq<char>)>, Seq<char>> {
    match p.api_key {
        Some(k) if !is_blank(k@) => {
            if !header_name_ok(auth_header_name(p)) {
                Err("无效的鉴权 header 名称"@)
            } else if !header_value_ok(k@) {
                Err("无效的鉴权 header 值"@)
            } else {
                prepend_headers(seq![(auth_header_name(p), k@)], extra_header_plan(p.extra_headers@))
            }
        },
        _ => extra_header_plan(p.extra_headers@),
    }
}

proof fn lemma_prepend_assoc(
    a: Seq<(Seq<char>, Seq<char>)>,
    b: Seq<(Seq<char>, Seq<char>)>,
    r: Result<Seq<(Seq<char>, Seq<char>)>, Seq<char>>,
)
    ensures
        prepend_headers(a, prepend_headers(b, r)) == prepend_headers(a + b, r),
{
    match r {
        Ok(rest) => {
            assert(a + (b + rest) =~= (a + b) + rest);
        },
        Err(_) => {},
    }
}

/// Every entry has a name and a value that the HTTP library accepts.
pub open spec fn all_acceptable(v: Seq<HeaderEntry>) -> bool {
    forall|i: int|
        0 <= i < v.len() ==> header_name_ok(#[trigger] v[i].key@) && header_value_ok(v[i].value@)
}

/// The headers of a provider's requests in order of insertion, checked as the
/// HTTP library checks them.
fn header_list(provider: &ProviderSettings) -> (r: Result<Vec<HeaderEntry>, AppError>)
    ensures
        header_plan(*provider) matches Ok(ps) ==> (r matches Ok(v) && header_pairs(v@) == ps),
        header_plan(*provider) matches Err(m) ==> (r matches Err(AppError::Config(x)) && x@ == m),
        r matches Ok(v) ==> all_acceptable(v@) && v@.len() <= provider.extra_headers@.len() + 1,
{
    let mut out: Vec<HeaderEntry> = Vec::new();
    let ghost mut rest_plan = extra_header_plan(provider.extra_headers@);
    match &provider.api_key {
        Some(k) => {
            if !is_blank_str(k.as_str()) {
                let name = match &provider.auth_header {
                    Some(h) => h.clone(),
                    None => owned("Authorization"),
                };
                assert(name@ == auth_header_name(*provider));
                if !header_name_valid(name.as_str()) {
                    return Err(AppError::Config(owned("无效的鉴权 header 名称")));
                }
                if !header_value_valid(k.as_str()) {
                    return Err(AppError::Config(owned("无效的鉴权 header 值")));
                }
                out.push(HeaderEntry { key: name, value: k.clone() });
                assert(header_pairs(out@) =~= seq![(auth_header_name(*provider), k@)]);
            }
        },
        None => {},
    }
    assert(prepend_headers(header_pairs(out@), extra_header_plan(provider.extra_headers@))
        == header_plan(*provider)) by {
        if out@.len() == 0 {
            assert(header_pairs(out@) =~= Seq::empty());
            match extra_header_plan(provider.extra_headers@) {
                Ok(rest) => {
                    assert(Seq::<(Seq<char>, Seq<char>)>::empty() + rest =~= rest);
                },
                Err(_) => {},
            }
        }
    }
    let es = &provider.extra_headers;
    let n = es.len();
    assert(es@.subrange(0, n as int) =~= es@);
    for i in 0..n
        invariant
            n == es@.len(),
            es@ == provider.extra_headers@,
            prepend_headers(header_pairs(out@), extra_header_plan(es@.subrange(i as int, n as int)))
                == header_plan(*provider),
            all_acceptable(out@),
            out@.len() <= i + 1,
    {
        let ghost tail = es@.subrange(i as int, n as int);
        assert(tail.drop_first() =~= es@.subrange(i + 1, n as int));
        assert(tail[0] == es@[i as int]);
        let e = &es[i];
        if !header_name_valid(e.key.as_str()) {
            let mut m = owned("无效的 header 名称: ");
            push_str(&mut m, e.key.as_str());
            return Err(AppError::Config(m));
        }
        if !header_value_valid(e.value.as_str()) {
            let mut m = owned("无效的 header 值: ");
            push_str(&mut m, e.key.as_str());
            return Err(AppError::Config(m));
        }
        let ghost before = header_pairs(out@);
        out.push(HeaderEntry { key: e.key.clone(), value: e.value.clone() });
        proof {
            assert(header_pairs(out@) =~= before + seq![(e.key@, e.value@)]);
            lemma_prepend_assoc(
                before,
                seq![(e.key@, e.value@)],
                extra_header_plan(es@.subrange(i + 1, n as int)),
            );
        }
    }
    assert(es@.subrange(n as int, n as int) =~= Seq::<HeaderEntry>::empty());
    assert(header_pairs(out@) + Seq::empty() =~= header_pairs(out@));
    Ok(out)
}

/// The headers as a header map holds them after they are inserted in order:
/// one value per name, names in lower case, a later header replacing an
/// earlier one of the same name.
pub open spec fn header_table(ps: Seq<(Seq<char>, Seq<char>)>) -> Map<Seq<char>, Seq<char>>
    decreases ps.len(),
{
    if ps.len() == 0 {
        Map::empty()
    } else {
        header_table(ps.drop_last()).insert(lower_seq(ps.last().0), ps.last().1)
    }
}

/// When every extra header is usable, the extra headers are listed as they
/// stand, in order.
proof fn lemma_extra_plan_pairs(es: Seq<HeaderEntry>)
    ensures
        extra_header_plan(es) matches Ok(ps) ==> ps == header_pairs(es),
        (forall|j: int| 0 <= j < es.len() ==> header_name_ok(#[trigger] es[j].key@) && header_value_ok(
            es[j].value@,
        )) ==> extra_header_plan(es) is Ok,
    decreases es.len(),
{
    if es.len() > 0 {
        let rest = es.drop_first();
        lemma_extra_plan_pairs(rest);
        assert(header_pairs(es) =~= seq![(es[0].key@, es[0].value@)] + header_pairs(rest));
        if forall|j: int| 0 <= j < es.len() ==> header_name_ok(#[trigger] es[j].key@) && header_value_ok(
            es[j].value@,
        ) {
            assert(header_name_ok(es[0].key@) && header_value_ok(es[0].value@));
            assert forall|j: int| 0 <= j < rest.len() implies header_name_ok(#[trigger] rest[j].key@)
                && header_value_ok(rest[j].value@) by {
                assert(rest[j] == es[j + 1]);
            }
        }
    }
}

/// After inserting `ps` in turn, a name holds the value of the last header
/// inserted under it (ignoring ASCII case).
proof fn lemma_table_keeps_last(ps: Seq<(Seq<char>, Seq<char>)>, j: int)
    requires
        0 <= j < ps.len(),
        forall|k: int| j < k < ps.len() ==> lower_seq(#[trigger] ps[k].0) != lower_seq(ps[j].0),
    ensures
        header_table(ps).contains_key(lower_seq(ps[j].0)),
        header_table(ps)[lower_seq(ps[j].0)] == ps[j].1,
    decreases ps.len(),
{
    if j < ps.len() - 1 {
        let front = ps.drop_last();
        assert forall|k: int| j < k < front.len() implies lower_seq(#[trigger] front[k].0) != lower_seq(
            front[j].0,
        ) by {
            assert(front[k] == ps[k]);
        }
        lemma_table_keeps_last(front, j);
        assert(front[j] == ps[j]);
        assert(lower_seq(ps.last().0) != lower_seq(ps[j].0));
    }
}

/// A header map built by inserting `ps` in turn holds exactly the names of `ps`
/// (in lower case).
proof fn lemma_table_names(ps: Seq<(Seq<char>, Seq<char>)>, name: Seq<char>)
    ensures
        header_table(ps).contains_key(name) <==> exists|k: int| 0 <= k < ps.len() && lower_seq(#[trigger] ps[k].0) == name,
    decreases ps.len(),
{
    if ps.len() > 0 {
        let front = ps.drop_last();
        lemma_table_names(front, name);
        if exists|k: int| 0 <= k < front.len() && lower_seq(#[trigger] front[k].0) == name {
            let k = choose|k: int| 0 <= k < front.len() && lower_seq(#[trigger] front[k].0) == name;
            assert(ps[k] == front[k]);
        }
        if exists|k: int| 0 <= k < ps.len() && lower_seq(#[trigger] ps[k].0) == name {
            let k = choose|k: int| 0 <= k < ps.len() && lower_seq(#[trigger] ps[k].0) == name;
            if k < front.len() {
                assert(ps[k] == front[k]);
            }
        }
    }
}

/// The headers a provider's requests carry, whether or not an API key is set:
/// when every name and value is usable the map is built; each extra header is
/// in it with its value unless a later extra header of the same name (ignoring
/// ASCII case) replaces it; a non-blank API key is in it under the
/// authentication header unless an extra header of that name replaces it; and
/// the map holds no other name.
pub proof fn lemma_headers_sent(p: ProviderSettings)
    requires
        forall|j: int|
            0 <= j < p.extra_headers@.len() ==> header_name_ok(#[trigger] p.extra_headers@[j].key@)
                && header_value_ok(p.extra_headers@[j].value@),
        p.api_key is Some && !is_blank(p.api_key->0@) ==> header_name_ok(auth_header_name(p))
            && header_value_ok(p.api_key->0@),
    ensures
        header_plan(p) is Ok,
        header_plan(p) matches Ok(ps) ==> {
            let es = p.extra_headers@;
            let table = header_table(ps);
            &&& forall|j: int|
                0 <= j < es.len() && (forall|k: int|
                    j < k < es.len() ==> lower_seq(#[trigger] es[k].key@) != lower_seq(es[j].key@))
                    ==> table.contains_key(lower_seq(#[trigger] es[j].key@)) && table[lower_seq(es[j].key@)]
                    == es[j].value@
            &&& p.api_key is Some && !is_blank(p.api_key->0@) && (forall|m: int|
                0 <= m < es.len() ==> lower_seq(#[trigger] es[m].key@) != lower_seq(auth_header_name(p)))
                ==> table.contains_key(lower_seq(auth_header_name(p))) && table[lower_seq(auth_header_name(p))]
                == p.api_key->0@
            &&& forall|name: Seq<char>|
                #[trigger] table.contains_key(name) ==> (exists|m: int|
                    0 <= m < es.len() && lower_seq(#[trigger] es[m].key@) == name) || (p.api_key is Some && !is_blank(
                    p.api_key->0@,
                ) && name == lower_seq(auth_header_name(p)))
        },
{
    let es = p.extra_headers@;
    lemma_extra_plan_pairs(es);
    let extras = header_pairs(es);
    let keyed = p.api_key is Some && !is_blank(p.api_key->0@);
    let head: Seq<(Seq<char>, Seq<char>)> = if keyed {
        seq![(auth_header_name(p), p.api_key->0@)]
    } else {
        Seq::empty()
    };
    let ps = head + extras;
    assert(header_plan(p) == Ok::<Seq<(Seq<char>, Seq<char>)>, Seq<char>>(ps)) by {
        if !keyed {
            assert(ps =~= extras);
        }
    }
    let table = header_table(ps);
    assert forall|j: int|
        0 <= j < es.len() && (forall|k: int|
            j < k < es.len() ==> lower_seq(#[trigger] es[k].key@) != lower_seq(es[j].key@))
        implies table.contains_key(lower_seq(#[trigger] es[j].key@)) && table[lower_seq(es[j].key@)]
        == es[j].value@ by {
        let n = head.len() as int;
        assert(ps[n + j] == (es[j].key@, es[j].value@));
        assert forall|k: int| n + j < k < ps.len() implies lower_seq(#[trigger] ps[k].0) != lower_seq(
            ps[n + j].0,
        ) by {
            assert(ps[k] == (es[k - n].key@, es[k - n].value@));
        }
        lemma_table_keeps_last(ps, n + j);
    }
    if keyed {
        if forall|m: int| 0 <= m < es.len() ==> lower_seq(#[trigger] es[m].key@) != lower_seq(auth_header_name(p)) {
            assert forall|k: int| 0 < k < ps.len() implies lower_seq(#[trigger] ps[k].0) != lower_seq(ps[0].0) by {
                assert(ps[k] == (es[k - 1].key@, es[k - 1].value@));
            }
            lemma_table_keeps_last(ps, 0);
        }
    }
    assert forall|name: Seq<char>| #[trigger] table.contains_key(name) implies (exists|m: int|
        0 <= m < es.len() && lower_seq(#[trigger] es[m].key@) == name) || (keyed && name == lower_seq(
        auth_header_name(p),
    )) by {
        lemma_table_names(ps, name);
        let k = choose|k: int| 0 <= k < ps.len() && lower_seq(#[trigger] ps[k].0) == name;
        let n = head.len() as int;
        if k >= n {
            assert(ps[k] == (es[k - n].key@, es[k - n].value@));
            assert(lower_seq(es[k - n].key@) == name);
        }
    }
}

/// The header map of a provider's requests: the API key under the
/// authentication header when a non-blank key is set, then the extra headers,
/// each inserted in turn so that a later header replaces an earlier one of the
/// same name (ignoring ASCII case), and nothing else. Or the complaint about
/// the first unusable name or value.
pub fn build_headers(provider: &ProviderSettings) -> (r: Result<HeaderMap, AppError>)
    requires
        provider.extra_headers@.len() < HEADER_MAP_LIMIT,
    ensures
        header_plan(*provider) matches Ok(ps) ==> (r matches Ok(m) && header_map_entries(m)
            == header_table(ps)),
        header_plan(*provider) matches Err(m) ==> (r matches Err(AppError::Config(x)) && x@ == m),
{
    let list = header_list(provider)?;
    let mut map = new_header_map();
    assert(header_map_entries(map) =~= Map::<Seq<char>, Seq<char>>::empty()) by {
        assert(header_map_entries(map).dom() =~= Set::<Seq<char>>::empty());
    }
    assert(header_pairs(list@.take(0)) =~= Seq::<(Seq<char>, Seq<char>)>::empty());
    for i in 0..list.len()
        invariant
            all_acceptable(list@),
            header_map_entries(map) == header_table(header_pairs(list@.take(i as int))),
            list@.len() <= provider.extra_headers@.len() + 1,
            provider.extra_headers@.len() < HEADER_MAP_LIMIT,
    {
        assert(header_pairs(list@.take(i + 1)).drop_last() =~= header_pairs(list@.take(i as int)));
        proof {
            lemma_header_table_size(header_pairs(list@.take(i as int)));
            assert(header_pairs(list@.take(i as int)).len() == i);
        }
        insert_header(&mut map, list[i].key.as_str(), list[i].value.as_str());
    }
    assert(list@.take(list@.len() as int) =~= list@);
    Ok(map)
}

} // verus!
